//! The closed set of operations, the router that maps a request line to one
//! of them, and the request pipeline every operation runs through.

pub mod complete_command;
pub mod delete_commands;
pub mod describe_command;
pub mod describe_commands;
pub mod dispatch_commands;
pub mod heartbeat_command;
pub mod receive_commands;
pub mod start_command;

use crate::batch::description_view;
use crate::database::batch_description_view;
use crate::database::complete_command_model;
use crate::database::data_view;
use crate::database::delete_model;
use crate::database::describe_commands_model;
use crate::database::describe_one_model;
use crate::database::dispatch_model;
use crate::database::heartbeat_command_model;
use crate::database::poll_deadline;
use crate::database::poll_model;
use crate::database::start_command_model;
use crate::database::Database;
use crate::database::DatabaseView;
use crate::errors::ErrorKind;
use crate::fingerprint::dispatch_fingerprint;
use crate::headers::place_of;
use crate::headers::Place;
use crate::ids::ID_LENGTH;
use crate::laws::lemma_unchanged_preserves;
use crate::laws::preserves;
use crate::waiters::string_views;
use vstd::prelude::*;
use vstd::string::StrSliceExecFns;
use vstd::string::StringSliceAdditionalSpecFns;

verus! {

/// Request method, as far as routing cares.
#[derive(Clone, Copy, Debug, PartialEq, Eq, Structural)]
pub enum Method {
    Get,
    Head,
    Post,
    Put,
    Delete,
    Connect,
    Options,
    Trace,
    Patch,
    /// Any extension method.
    Other,
}

/// The operations the service offers.
#[derive(Clone, Copy, Debug, PartialEq, Eq, Structural)]
pub enum Operation {
    ReceiveCommands,
    DispatchCommands,
    StartCommand,
    HeartbeatCommand,
    CompleteCommand,
    DescribeCommands,
    DescribeCommand,
    DeleteCommands,
}

/// Body size cap that applies unless an operation says otherwise.
pub const DEFAULT_MAX_BODY_SIZE: usize = 32 * 1024;

/// Every operation, in routing order.
pub open spec fn all_operations() -> Seq<Operation> {
    seq![
        Operation::ReceiveCommands,
        Operation::DispatchCommands,
        Operation::StartCommand,
        Operation::HeartbeatCommand,
        Operation::CompleteCommand,
        Operation::DescribeCommands,
        Operation::DescribeCommand,
        Operation::DeleteCommands,
    ]
}

/// The path an operation is served under.
pub open spec fn path_of(op: Operation) -> Seq<char> {
    match op {
        Operation::ReceiveCommands => "/api/dispatch/receive_commands"@,
        Operation::DispatchCommands => "/api/dispatch/dispatch_commands"@,
        Operation::StartCommand => "/api/dispatch/start_command"@,
        Operation::HeartbeatCommand => "/api/dispatch/heartbeat_command"@,
        Operation::CompleteCommand => "/api/dispatch/complete_command"@,
        Operation::DescribeCommands => "/api/dispatch/describe_commands"@,
        Operation::DescribeCommand => "/api/dispatch/describe_command"@,
        Operation::DeleteCommands => "/api/dispatch/delete_commands"@,
    }
}

/// No two operations are served under the same path, and every path
/// starts with a slash.
pub proof fn lemma_paths_distinct(a: Operation, b: Operation)
    ensures
        a != b ==> path_of(a) != path_of(b),
        path_of(a).len() > 14,
        path_of(a)[0] == '/',
{
    reveal_strlit("/api/dispatch/receive_commands");
    reveal_strlit("/api/dispatch/dispatch_commands");
    reveal_strlit("/api/dispatch/start_command");
    reveal_strlit("/api/dispatch/heartbeat_command");
    reveal_strlit("/api/dispatch/complete_command");
    reveal_strlit("/api/dispatch/describe_commands");
    reveal_strlit("/api/dispatch/describe_command");
    reveal_strlit("/api/dispatch/delete_commands");
    let x = path_of(a);
    let y = path_of(b);
    if a != b && x.len() == y.len() {
        assert(x[14] != y[14] || x[15] != y[15]);
    }
}

/// The method an operation is served under.
pub open spec fn method_of(op: Operation) -> Method {
    Method::Post
}

impl Operation {
    /// Every operation, in routing order.
    pub fn all() -> (ops: Vec<Operation>)
        ensures
            ops@ == all_operations(),
    {
        vec![
            Operation::ReceiveCommands,
            Operation::DispatchCommands,
            Operation::StartCommand,
            Operation::HeartbeatCommand,
            Operation::CompleteCommand,
            Operation::DescribeCommands,
            Operation::DescribeCommand,
            Operation::DeleteCommands,
        ]
    }

    /// The path this operation is served under. It holds no character
    /// that means anything special in a regular expression, so it serves
    /// as the pattern that finds it.
    pub fn path_regex(&self) -> (pattern: &'static str)
        ensures
            pattern@ == path_of(*self),
    {
        match self {
            Operation::ReceiveCommands => "/api/dispatch/receive_commands",
            Operation::DispatchCommands => "/api/dispatch/dispatch_commands",
            Operation::StartCommand => "/api/dispatch/start_command",
            Operation::HeartbeatCommand => "/api/dispatch/heartbeat_command",
            Operation::CompleteCommand => "/api/dispatch/complete_command",
            Operation::DescribeCommands => "/api/dispatch/describe_commands",
            Operation::DescribeCommand => "/api/dispatch/describe_command",
            Operation::DeleteCommands => "/api/dispatch/delete_commands",
        }
    }

    /// The method this operation is served under.
    pub fn method(&self) -> (m: Method)
        ensures
            m == method_of(*self),
    {
        Method::Post
    }

    /// The largest request body this operation reads.
    pub fn max_body_size(&self) -> (n: usize)
        ensures
            n == DEFAULT_MAX_BODY_SIZE,
    {
        DEFAULT_MAX_BODY_SIZE
    }
}

/// `regex::RegexSet`, taken as it is: nothing is known of what is inside
/// beyond what `set_patterns` names.
#[verifier::external_type_specification]
#[verifier::external_body]
pub struct ExRegexSet(regex::RegexSet);

/// `regex::Error`, taken as it is: why a pattern did not compile.
#[verifier::external_type_specification]
#[verifier::external_body]
pub struct ExRegexError(regex::Error);

/// The patterns a regex set was built from, in the order they were given.
pub uninterp spec fn set_patterns(set: regex::RegexSet) -> Seq<Seq<char>>;

/// Whether a regex set was built with the engine's default options, as
/// `regex::RegexSet::new` builds it.
pub uninterp spec fn set_is_plain(set: regex::RegexSet) -> bool;

/// Whether the regex engine, under its default options and limits,
/// compiles `patterns` into one set.
pub uninterp spec fn set_compiles(patterns: Seq<Seq<char>>) -> bool;

/// The indices of the patterns among `patterns` that match somewhere in
/// `haystack`, as the regex engine decides it under its default options.
pub uninterp spec fn set_matches(patterns: Seq<Seq<char>>, haystack: Seq<char>) -> Seq<usize>;

/// `regex::RegexSet::new`: compiles the patterns into one set, with the
/// engine's default options. Whether that succeeds depends on the patterns
/// alone. On success the set remembers the patterns in the order given. A
/// pattern that does not compile, or a set that grows beyond the engine's
/// fixed size limit, is an error.
#[verifier::external_body]
fn compile_set(patterns: &Vec<&'static str>) -> (r: Result<regex::RegexSet, regex::Error>)
    ensures
        r is Ok <==> set_compiles(patterns@.map_values(|p: &'static str| p@)),
        r matches Ok(set) ==> set_is_plain(set) && set_patterns(set) == patterns@.map_values(
            |p: &'static str| p@,
        ),
{
    regex::RegexSet::new(patterns.iter())
}

/// `regex::RegexSet::matches`, collected: the indices of the patterns that
/// match, in the order the engine yields them, which is ascending. Each
/// index is below the number of patterns. For a set built with the default
/// options the result depends on the patterns and the haystack alone.
#[verifier::external_body]
fn matching_indices(set: &regex::RegexSet, haystack: &str) -> (r: Vec<usize>)
    requires
        set_is_plain(*set),
    ensures
        r@ == set_matches(set_patterns(*set), haystack@),
        forall|i: int| 0 <= i < r@.len() ==> #[trigger] r@[i] < set_patterns(*set).len(),
        forall|i: int, j: int| 0 <= i < j < r@.len() ==> #[trigger] r@[i] < #[trigger] r@[j],
{
    set.matches(haystack).into_iter().collect()
}

/// Why a router could not be built.
#[derive(Clone, Copy, Debug, PartialEq, Eq, Structural)]
pub enum RouterError {
    /// The regex engine rejected the route table.
    InvalidPattern,
}

/// Whether the operation that `matched[k]` points at serves `path` under
/// `method`: it is served under that method, and its path is `path`, from
/// the first character to the last.
pub open spec fn accepts(
    operations: Seq<Operation>,
    matched: Seq<usize>,
    path: Seq<char>,
    method: Method,
    k: int,
) -> bool {
    &&& 0 <= k < matched.len()
    &&& matched[k] < operations.len()
    &&& method_of(operations[matched[k] as int]) == method
    &&& path_of(operations[matched[k] as int]) == path
}

/// The operation a request is routed to, given the indices of the patterns
/// that were found in its path: that of the first index that names an
/// operation served under `method` whose path is the whole of `path`.
pub open spec fn selected(
    operations: Seq<Operation>,
    matched: Seq<usize>,
    path: Seq<char>,
    method: Method,
    r: Option<Operation>,
) -> bool {
    match r {
        Some(op) => exists|k: int|
            #![trigger matched[k]]
            {
                &&& accepts(operations, matched, path, method, k)
                &&& op == operations[matched[k] as int]
                &&& forall|j: int| 0 <= j < k ==> !accepts(operations, matched, path, method, j)
            },
        None => forall|k: int| !accepts(operations, matched, path, method, k),
    }
}

/// Picks the operation for a request from the indices of the patterns that
/// were found in its path. A pattern that is found in a longer path does
/// not make that path the operation's.
pub fn select_operation(
    operations: &Vec<Operation>,
    matched: &Vec<usize>,
    path: &str,
    method: Method,
) -> (r: Option<Operation>)
    ensures
        selected(operations@, matched@, path@, method, r),
        r matches Some(op) ==> path@ == path_of(op) && method == method_of(op),
{
    let mut k: usize = 0;
    while k < matched.len()
        invariant
            k <= matched.len(),
            forall|j: int| 0 <= j < k ==> !accepts(operations@, matched@, path@, method, j),
        decreases matched.len() - k,
    {
        let index = matched[k];
        if index < operations.len() {
            let op = operations[index];
            if op.method() == method && place_of(op.path_regex(), path) == Place::Same {
                assert(accepts(operations@, matched@, path@, method, k as int));
                return Some(op);
            }
        }
        k = k + 1;
    }
    None
}

/// The pattern of every operation, in routing order.
pub open spec fn route_patterns() -> Seq<Seq<char>> {
    all_operations().map_values(|op: Operation| path_of(op))
}

/// Maps a request line to an operation.
pub struct Router {
    path_set: regex::RegexSet,
    all_operations: Vec<Operation>,
}

impl Router {
    /// The operations this router knows, in routing order.
    pub closed spec fn operations(&self) -> Seq<Operation> {
        self.all_operations@
    }

    /// The patterns this router matches paths against.
    pub closed spec fn patterns(&self) -> Seq<Seq<char>> {
        set_patterns(self.path_set)
    }

    /// The router holds every operation, and one pattern per operation.
    pub open spec fn wf(&self) -> bool {
        &&& self.operations() == all_operations()
        &&& self.patterns() == route_patterns()
    }

    /// Every router is well formed, and its patterns were compiled with
    /// the engine's default options.
    #[verifier::type_invariant]
    spec fn built(self) -> bool {
        self.wf() && set_is_plain(self.path_set)
    }

    /// Builds the router for the full operation set. Fails only if the
    /// regex engine rejects the route table.
    pub fn new() -> (r: Result<Router, RouterError>)
        ensures
            r is Ok <==> set_compiles(route_patterns()),
            r matches Ok(router) ==> router.wf(),
            r matches Err(e) ==> e == RouterError::InvalidPattern,
    {
        let patterns = Router::route_table();
        Router::from_compiled(compile_set(&patterns))
    }

    /// The patterns that are handed to the regex engine: the path of each
    /// operation, in routing order.
    pub fn route_table() -> (patterns: Vec<&'static str>)
        ensures
            patterns@.map_values(|p: &'static str| p@) == route_patterns(),
    {
        let operations = Operation::all();
        let mut patterns: Vec<&'static str> = Vec::new();
        let mut i: usize = 0;
        while i < operations.len()
            invariant
                i <= operations.len(),
                operations@ == all_operations(),
                patterns@.len() == i,
                forall|j: int| 0 <= j < i ==> patterns@[j]@ == path_of(operations@[j]),
            decreases operations.len() - i,
        {
            patterns.push(operations[i].path_regex());
            i = i + 1;
        }
        assert(patterns@.map_values(|p: &'static str| p@) =~= route_patterns());
        patterns
    }

    /// Builds the router from what the regex engine made of the route
    /// table: a router that holds the compiled set if the table compiled,
    /// and an error if it did not.
    pub fn from_compiled(compiled: Result<regex::RegexSet, regex::Error>) -> (r: Result<
        Router,
        RouterError,
    >)
        requires
            compiled matches Ok(set) ==> set_is_plain(set) && set_patterns(set) == route_patterns(),
        ensures
            compiled is Ok <==> r is Ok,
            r matches Ok(router) ==> router.wf(),
            r matches Err(e) ==> e == RouterError::InvalidPattern,
    {
        match compiled {
            Ok(path_set) => Ok(Router { path_set, all_operations: Operation::all() }),
            Err(_) => Err(RouterError::InvalidPattern),
        }
    }

    /// The operation that serves `path` under `method`, if any: the
    /// operation whose path is `path`, if the engine finds its pattern in
    /// the path and it is served under `method`. The answer depends on the
    /// path and the method alone.
    pub fn route(&self, path: &str, method: Method) -> (r: Option<Operation>)
        ensures
            selected(all_operations(), set_matches(route_patterns(), path@), path@, method, r),
            r matches Some(op) ==> path@ == path_of(op) && method == method_of(op),
    {
        proof {
            use_type_invariant(self);
        }
        let matched = matching_indices(&self.path_set, path);
        select_operation(&self.all_operations, &matched, path, method)
    }
}

/// Whether `c` is one of `0` to `9`.
pub open spec fn is_digit(c: char) -> bool {
    '0' <= c <= '9'
}

/// The number a digit stands for.
pub open spec fn digit_value(c: char) -> nat {
    (c as u32 - 48) as nat
}

/// The number a string of digits stands for, read in base ten.
pub open spec fn decimal_value(s: Seq<char>) -> nat
    decreases s.len(),
{
    if s.len() == 0 {
        0
    } else {
        decimal_value(s.drop_last()) * 10 + digit_value(s.last())
    }
}

/// Every character is a digit.
pub open spec fn all_digits(s: Seq<char>) -> bool {
    forall|i: int| 0 <= i < s.len() ==> is_digit(#[trigger] s[i])
}

/// `s` without its leading plus sign, if it has one.
pub open spec fn unsigned_part(s: Seq<char>) -> Seq<char> {
    if s.len() > 0 && s[0] == '+' {
        s.subrange(1, s.len() as int)
    } else {
        s
    }
}

/// The length a Content-Length value declares: one or more digits, with an
/// optional plus sign in front, whose value fits the machine word.
pub open spec fn declared_length(s: Seq<char>) -> Option<usize> {
    let digits = unsigned_part(s);
    if digits.len() > 0 && all_digits(digits) && decimal_value(digits) <= usize::MAX {
        Some(decimal_value(digits) as usize)
    } else {
        None
    }
}

/// A prefix of a digit string never stands for more than the whole.
pub proof fn lemma_decimal_prefix(s: Seq<char>, k: int)
    requires
        0 <= k <= s.len(),
    ensures
        decimal_value(s.subrange(0, k)) <= decimal_value(s),
    decreases s.len() - k,
{
    if k == s.len() {
        assert(s.subrange(0, k) =~= s);
    } else {
        lemma_decimal_prefix(s.drop_last(), k);
        assert(s.drop_last().subrange(0, k) =~= s.subrange(0, k));
    }
}

/// How an ASCII character shows in its byte.
proof fn lemma_ascii_byte(c: char)
    requires
        '\0' <= c <= '\u{7f}',
    ensures
        is_digit(c) <==> 48 <= c as u8 <= 57,
        is_digit(c) ==> digit_value(c) == c as u8 - 48,
        c == '+' <==> c as u8 == 43,
{
}

/// Reads a Content-Length value.
pub fn parse_content_length(header: &str) -> (r: Option<usize>)
    ensures
        r == declared_length(header@),
{
    broadcast use vstd::string::is_ascii_spec_bytes;

    if !header.is_ascii() {
        proof {
            let s = header@;
            let i = choose|i: int| 0 <= i < s.len() && !('\0' <= #[trigger] s[i] <= '\u{7f}');
            let digits = unsigned_part(s);
            if digits.len() == s.len() {
                assert(!is_digit(digits[i]));
            } else {
                assert(digits[i - 1] == s[i]);
                assert(!is_digit(digits[i - 1]));
            }
        }
        return None;
    }
    let n = header.as_bytes().len();
    proof {
        vstd::utf8::is_ascii_chars_encode_utf8(header@);
    }
    let start: usize = if n > 0 && header.get_ascii(0) == 43 {
        1
    } else {
        0
    };
    let ghost digits = unsigned_part(header@);
    proof {
        if n > 0 {
            lemma_ascii_byte(header@[0]);
        }
    }
    assert(digits =~= header@.subrange(start as int, n as int));
    if start == n {
        return None;
    }
    let mut value: usize = 0;
    let mut i: usize = start;
    while i < n
        invariant
            header.is_ascii(),
            n == header@.len(),
            start <= i <= n,
            digits == header@.subrange(start as int, n as int),
            digits == unsigned_part(header@),
            all_digits(digits.subrange(0, i - start)),
            value == decimal_value(digits.subrange(0, i - start)),
        decreases n - i,
    {
        let byte = header.get_ascii(i);
        let ghost prefix = digits.subrange(0, i - start);
        let ghost next = digits.subrange(0, i - start + 1);
        assert(next.drop_last() =~= prefix);
        assert(next.last() == header@[i as int]);
        proof {
            lemma_ascii_byte(header@[i as int]);
        }
        assert(decimal_value(next) == value * 10 + digit_value(next.last()));
        if byte < 48 || byte > 57 {
            assert(!is_digit(digits[i - start]));
            return None;
        }
        proof {
            lemma_decimal_prefix(digits, i - start + 1);
            assert forall|j: int| 0 <= j < next.len() implies is_digit(#[trigger] next[j]) by {
                if j < prefix.len() {
                    assert(next[j] == prefix[j]);
                }
            }
        }
        let digit = (byte - 48) as usize;
        match value.checked_mul(10) {
            None => {
                return None;
            },
            Some(tens) => match tens.checked_add(digit) {
                None => {
                    return None;
                },
                Some(sum) => {
                    value = sum;
                },
            },
        }
        i = i + 1;
    }
    assert(digits.subrange(0, n - start) =~= digits);
    Some(value)
}

/// Where a request stands in the pipeline.
#[derive(Clone, Copy, Debug, PartialEq, Eq, Structural)]
pub enum Stage {
    /// Nothing has been looked at yet.
    Headers,
    /// The declared length was accepted; the body is being read.
    Body { declared: usize },
    /// The body is in; it is being decoded.
    Decode,
    /// The handler is running on the decoded input.
    Handler,
    /// The handler's output is being encoded.
    Encode,
    /// A response has been decided.
    Finished,
}

/// What happened since the last step.
#[derive(Clone, Copy, Debug, PartialEq, Eq)]
pub enum Event<'a> {
    /// The request head arrived, with this Content-Length value if any.
    Head { content_length: Option<&'a str> },
    /// The whole body arrived and is `len` bytes long.
    BodyRead { len: usize },
    /// The transport failed while the body was being read.
    BodyFailed,
    /// The body decoded into the operation's input.
    Decoded,
    /// The body is not valid JSON for the operation's input.
    DecodeFailed,
    /// The handler returned.
    Handled,
    /// The output was encoded.
    Encoded,
    /// The output could not be encoded.
    EncodeFailed,
}

/// What to do next.
#[derive(Clone, Copy, Debug, PartialEq, Eq, Structural)]
pub enum Step {
    /// Read the body, giving up beyond `limit` bytes.
    ReadBody { limit: usize },
    /// Decode the body.
    Decode,
    /// Run the handler.
    Invoke,
    /// Encode the handler's output.
    Encode,
    /// Send the encoded output.
    Send,
    /// Send the envelope of this error; the handler does not run.
    Reject(ErrorKind),
}

/// The pipeline as a function of the stage and the event.
pub open spec fn pipeline_next(stage: Stage, event: Event<'_>, max_body_size: usize) -> (
    Stage,
    Step,
) {
    match (stage, event) {
        (Stage::Headers, Event::Head { content_length }) => {
            let declared = match content_length {
                Some(value) => declared_length(value@),
                None => None,
            };
            match declared {
                None => (Stage::Finished, Step::Reject(ErrorKind::NoContentLength)),
                Some(n) => if n > max_body_size {
                    (Stage::Finished, Step::Reject(ErrorKind::BodyTooLarge))
                } else {
                    (Stage::Body { declared: n }, Step::ReadBody { limit: max_body_size })
                },
            }
        },
        (Stage::Body { .. }, Event::BodyRead { len }) => if len > max_body_size {
            (Stage::Finished, Step::Reject(ErrorKind::BodyTooLarge))
        } else {
            (Stage::Decode, Step::Decode)
        },
        (Stage::Body { .. }, Event::BodyFailed) => (
            Stage::Finished,
            Step::Reject(ErrorKind::BodyReadFailed),
        ),
        (Stage::Decode, Event::Decoded) => (Stage::Handler, Step::Invoke),
        (Stage::Decode, Event::DecodeFailed) => (
            Stage::Finished,
            Step::Reject(ErrorKind::ReqJsonParse),
        ),
        (Stage::Handler, Event::Handled) => (Stage::Encode, Step::Encode),
        (Stage::Encode, Event::Encoded) => (Stage::Finished, Step::Send),
        _ => (Stage::Finished, Step::Reject(ErrorKind::Internal)),
    }
}

/// The handler runs only on a body that was read within the cap and
/// decoded: a request that fails before that never reaches it.
pub proof fn lemma_handler_runs_after_decode(stage: Stage, event: Event<'_>, max_body_size: usize)
    requires
        pipeline_next(stage, event, max_body_size).1 == Step::Invoke,
    ensures
        stage == Stage::Decode,
        event == Event::Decoded,
{
}

/// One step of the request pipeline: checks the event that ended the
/// current stage and says what comes next. An event that does not belong to
/// the stage ends the request with an internal error.
pub fn run_operation(stage: Stage, event: Event<'_>, max_body_size: usize) -> (r: (Stage, Step))
    ensures
        r == pipeline_next(stage, event, max_body_size),
{
    match (stage, event) {
        (Stage::Headers, Event::Head { content_length }) => {
            let declared = match content_length {
                Some(value) => parse_content_length(value),
                None => None,
            };
            match declared {
                None => (Stage::Finished, Step::Reject(ErrorKind::NoContentLength)),
                Some(n) => if n > max_body_size {
                    (Stage::Finished, Step::Reject(ErrorKind::BodyTooLarge))
                } else {
                    (Stage::Body { declared: n }, Step::ReadBody { limit: max_body_size })
                },
            }
        },
        (Stage::Body { .. }, Event::BodyRead { len }) => if len > max_body_size {
            (Stage::Finished, Step::Reject(ErrorKind::BodyTooLarge))
        } else {
            (Stage::Decode, Step::Decode)
        },
        (Stage::Body { .. }, Event::BodyFailed) => (
            Stage::Finished,
            Step::Reject(ErrorKind::BodyReadFailed),
        ),
        (Stage::Decode, Event::Decoded) => (Stage::Handler, Step::Invoke),
        (Stage::Decode, Event::DecodeFailed) => (
            Stage::Finished,
            Step::Reject(ErrorKind::ReqJsonParse),
        ),
        (Stage::Handler, Event::Handled) => (Stage::Encode, Step::Encode),
        (Stage::Encode, Event::Encoded) => (Stage::Finished, Step::Send),
        _ => (Stage::Finished, Step::Reject(ErrorKind::Internal)),
    }
}

/// A decoded request, for whichever operation it is.
#[derive(Debug)]
pub enum Request {
    ReceiveCommands(receive_commands::Input),
    DispatchCommands(dispatch_commands::Input),
    StartCommand(start_command::Input),
    HeartbeatCommand(heartbeat_command::Input),
    CompleteCommand(complete_command::Input),
    DescribeCommands(describe_commands::Input),
    DescribeCommand(describe_command::Input),
    DeleteCommands(delete_commands::Input),
}

/// What an operation answered. A description is `None` when what it asks
/// about is unknown.
#[derive(Debug)]
pub enum Reply {
    ReceiveCommands(receive_commands::Polled),
    DispatchCommands(dispatch_commands::Output),
    StartCommand(start_command::Output),
    HeartbeatCommand(heartbeat_command::Output),
    CompleteCommand(complete_command::Output),
    DescribeCommands(Option<describe_commands::Output>),
    DescribeCommand(Option<describe_command::Output>),
    DeleteCommands(delete_commands::Output),
}

/// The status every reply goes out under.
pub const STATUS_OK: u16 = 200;

/// How a reply goes out. Asking about a batch or a command that does not
/// exist is no error: the reply goes out under the same status as any
/// other, and says that there is nothing to describe.
#[derive(Clone, Copy, Debug, PartialEq, Eq, Structural)]
pub enum Answer {
    /// The output of the operation, as JSON.
    Output,
    /// The JSON value `null`: what was asked about does not exist.
    Absent,
}

/// How a reply goes out: a description of something that does not exist
/// as `Absent`, every other reply with its output.
pub open spec fn answer_model(reply: Reply) -> Answer {
    match reply {
        Reply::DescribeCommands(None) => Answer::Absent,
        Reply::DescribeCommand(None) => Answer::Absent,
        _ => Answer::Output,
    }
}

/// Decides how a reply goes out.
pub fn answer_for(reply: &Reply) -> (answer: Answer)
    ensures
        answer == answer_model(*reply),
{
    match reply {
        Reply::DescribeCommands(None) => Answer::Absent,
        Reply::DescribeCommand(None) => Answer::Absent,
        _ => Answer::Output,
    }
}

/// The body of a reply that goes out as `Absent`.
pub fn absent_body() -> (body: &'static str)
    ensures
        body@ == "null"@,
{
    "null"
}

/// The operation a request is for.
pub open spec fn operation_of(request: Request) -> Operation {
    match request {
        Request::ReceiveCommands(_) => Operation::ReceiveCommands,
        Request::DispatchCommands(_) => Operation::DispatchCommands,
        Request::StartCommand(_) => Operation::StartCommand,
        Request::HeartbeatCommand(_) => Operation::HeartbeatCommand,
        Request::CompleteCommand(_) => Operation::CompleteCommand,
        Request::DescribeCommands(_) => Operation::DescribeCommands,
        Request::DescribeCommand(_) => Operation::DescribeCommand,
        Request::DeleteCommands(_) => Operation::DeleteCommands,
    }
}

/// Whether `reply` and `after` are what the operation of `request` makes
/// of the store `before`, for a caller `caller` at `now`.
pub open spec fn answers(
    before: DatabaseView,
    request: Request,
    caller: Seq<char>,
    now: usize,
    after: DatabaseView,
    reply: Reply,
) -> bool {
    match (request, reply) {
        (Request::ReceiveCommands(req), Reply::ReceiveCommands(out)) => (after, out@) == poll_model(
            before,
            req.target_name@,
            string_views(req.exclude_batches@),
            string_views(req.group_membership@),
            poll_deadline(now, req.timeout_millis),
            now,
        ),
        (Request::DispatchCommands(req), Reply::DispatchCommands(out)) => exists|fresh: Seq<char>|
            fresh.len() == ID_LENGTH && (after, out.batch_id@) == #[trigger] dispatch_model(
                before,
                dispatch_fingerprint(caller, req@),
                fresh,
                req@,
                now,
            ),
        (Request::StartCommand(req), Reply::StartCommand(out)) => exists|fresh: Seq<char>|
            fresh.len() == ID_LENGTH && (after, out@) == #[trigger] start_command_model(
                before,
                req.batch_id@,
                req.command_index,
                req.nonce@,
                fresh,
                now,
            ),
        (Request::HeartbeatCommand(req), Reply::HeartbeatCommand(out)) => (after, out)
            == heartbeat_command_model(before, req.batch_id@, req.attempt_token@, now),
        (Request::CompleteCommand(req), Reply::CompleteCommand(out)) => (after, out)
            == complete_command_model(
            before,
            req.batch_id@,
            req.attempt_token@,
            req.success,
            data_view(req.data),
            now,
        ),
        (Request::DescribeCommands(req), Reply::DescribeCommands(out)) => after == before
            && batch_description_view(out) == describe_commands_model(before, req.batch_id@),
        (Request::DescribeCommand(req), Reply::DescribeCommand(out)) => after == before
            && description_view(out) == describe_one_model(
            before,
            req.batch_id@,
            req.command_index,
        ),
        (Request::DeleteCommands(req), Reply::DeleteCommands(_)) => after == delete_model(
            before,
            req.batch_id@,
        ),
        _ => false,
    }
}

impl Request {
    /// The operation this request is for.
    pub fn operation(&self) -> (op: Operation)
        ensures
            op == operation_of(*self),
    {
        match self {
            Request::ReceiveCommands(_) => Operation::ReceiveCommands,
            Request::DispatchCommands(_) => Operation::DispatchCommands,
            Request::StartCommand(_) => Operation::StartCommand,
            Request::HeartbeatCommand(_) => Operation::HeartbeatCommand,
            Request::CompleteCommand(_) => Operation::CompleteCommand,
            Request::DescribeCommands(_) => Operation::DescribeCommands,
            Request::DescribeCommand(_) => Operation::DescribeCommand,
            Request::DeleteCommands(_) => Operation::DeleteCommands,
        }
    }
}

/// Runs the handler of the operation that `request` is for, on behalf of
/// `caller` at `now`.
pub fn invoke(request: Request, caller: &str, now: usize, database: &mut Database) -> (reply: Reply)
    ensures
        answers(old(database)@, request, caller@, now, final(database)@, reply),
        preserves(old(database)@, final(database)@),
{
    match request {
        Request::ReceiveCommands(req) => Reply::ReceiveCommands(
            receive_commands::handle(&req, now, database),
        ),
        Request::DispatchCommands(req) => Reply::DispatchCommands(
            dispatch_commands::handle(&req, caller, now, database),
        ),
        Request::StartCommand(req) => Reply::StartCommand(
            start_command::handle(&req, now, database),
        ),
        Request::HeartbeatCommand(req) => Reply::HeartbeatCommand(
            heartbeat_command::handle(&req, now, database),
        ),
        Request::CompleteCommand(req) => Reply::CompleteCommand(
            complete_command::handle(&req, now, database),
        ),
        Request::DescribeCommands(req) => {
            proof {
                lemma_unchanged_preserves(database@);
            }
            Reply::DescribeCommands(describe_commands::handle(&req, database))
        },
        Request::DescribeCommand(req) => {
            proof {
                lemma_unchanged_preserves(database@);
            }
            Reply::DescribeCommand(describe_command::handle(&req, database))
        },
        Request::DeleteCommands(req) => Reply::DeleteCommands(
            delete_commands::handle(&req, database),
        ),
    }
}

} // verus!
