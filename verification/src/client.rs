//! Configuration of the ECSD (Ethereum Compliance Screening Daemon) sidecar
//! client, and what a reply of the sidecar's `BatchCheckAddresses` call means
//! under the configured fail-open/fail-closed behavior.

use vstd::prelude::*;

verus! {

/// The lowercase form of a string, as `str::to_lowercase` computes it.
pub uninterp spec fn lowercase(s: Seq<char>) -> Seq<char>;

/// Whether every character of `s` is an ASCII lowercase letter.
pub open spec fn is_ascii_lowercase_word(s: Seq<char>) -> bool {
    forall|i: int| 0 <= i < s.len() ==> 'a' <= #[trigger] s[i] <= 'z'
}

/// Calls `str::to_lowercase`: the result is the lowercase form of `s`, and a
/// string of ASCII lowercase letters is its own lowercase form.
#[verifier::external_body]
fn to_lowercase(s: &str) -> (lower: String)
    ensures
        lower@ == lowercase(s@),
        is_ascii_lowercase_word(s@) ==> lower@ == s@,
{
    s.to_lowercase()
}

/// The `Debug` rendering of a string: quoted, with special characters escaped.
pub uninterp spec fn debug_quoted(s: Seq<char>) -> Seq<char>;

/// Formats `s` with its `Debug` implementation (`format!("{:?}", s)`): the
/// result is the quoted, escaped rendering of `s`.
#[verifier::external_body]
fn debug_quote(s: &str) -> (quoted: String)
    ensures
        quoted@ == debug_quoted(s@),
{
    format!("{:?}", s)
}

/// The message with which `tonic::transport::Channel::from_shared` rejects
/// `endpoint` as a URI, or `None` when it accepts it.
pub uninterp spec fn endpoint_uri_error(endpoint: Seq<char>) -> Option<Seq<char>>;

/// Calls `tonic::transport::Channel::from_shared` on `endpoint`: `None` when
/// it accepts the endpoint, otherwise the rendering of its `InvalidUri` error.
/// The endpoint itself is dropped; connecting happens elsewhere.
#[verifier::external_body]
fn check_endpoint_uri(endpoint: &str) -> (rejection: Option<String>)
    ensures
        match rejection {
            Some(msg) => endpoint_uri_error(endpoint@) == Some(msg@),
            None => endpoint_uri_error(endpoint@) is None,
        },
{
    match tonic::transport::Channel::from_shared(endpoint.to_string()) {
        Ok(_) => None,
        Err(e) => Some(e.to_string()),
    }
}

/// The duration of `millis` milliseconds, as `Duration::from_millis` makes it.
pub uninterp spec fn duration_from_millis(millis: u64) -> std::time::Duration;

/// Calls `std::time::Duration::from_millis`.
#[verifier::external_body]
fn duration_of_millis(ms: u64) -> (d: std::time::Duration)
    ensures
        d == duration_from_millis(ms),
{
    std::time::Duration::from_millis(ms)
}

/// Behavior when the ECSD sidecar is unreachable or returns an error.
#[derive(Clone, Copy, Debug, PartialEq, Eq, Structural)]
pub enum ScreeningFailMode {
    /// Transactions pass through when ECSD is unavailable (permissive).
    Open,
    /// Transactions are rejected when ECSD is unavailable (restrictive).
    Closed,
}

impl Default for ScreeningFailMode {
    fn default() -> (mode: Self)
        ensures
            mode == ScreeningFailMode::Open,
    {
        ScreeningFailMode::Open
    }
}

/// The name of a fail mode: `"open"` or `"closed"`.
pub open spec fn fail_mode_name(mode: ScreeningFailMode) -> Seq<char> {
    match mode {
        ScreeningFailMode::Open => "open"@,
        ScreeningFailMode::Closed => "closed"@,
    }
}

/// The message that rejects a fail mode given its quoted rendering.
pub open spec fn rejection_text(quoted: Seq<char>) -> Seq<char> {
    "invalid screening fail mode: "@ + quoted + ", expected \"open\" or \"closed\""@
}

/// The message that rejects a fail mode whose lowercase form is `lower`.
pub open spec fn invalid_fail_mode_message(lower: Seq<char>) -> Seq<char> {
    rejection_text(debug_quoted(lower))
}

/// The fail mode named by an already lowercased string.
pub open spec fn fail_mode_of_lowercase(lower: Seq<char>) -> Result<ScreeningFailMode, Seq<char>> {
    if lower == "open"@ {
        Ok(ScreeningFailMode::Open)
    } else if lower == "closed"@ {
        Ok(ScreeningFailMode::Closed)
    } else {
        Err(invalid_fail_mode_message(lower))
    }
}

/// The fail mode named by `s`, compared after lowercasing.
pub open spec fn fail_mode_of(s: Seq<char>) -> Result<ScreeningFailMode, Seq<char>> {
    fail_mode_of_lowercase(lowercase(s))
}

/// A string result taken by its view.
pub open spec fn string_result_view<T>(r: Result<T, String>) -> Result<T, Seq<char>> {
    match r {
        Ok(v) => Ok(v),
        Err(e) => Err(e@),
    }
}

/// Naming a fail mode and reading the name back gives the same mode.
pub proof fn lemma_fail_mode_name_roundtrip(mode: ScreeningFailMode)
    ensures
        fail_mode_of_lowercase(fail_mode_name(mode)) == Ok::<ScreeningFailMode, Seq<char>>(mode),
{
    reveal_strlit("open");
    reveal_strlit("closed");
    assert("open"@.len() == 4);
    assert("closed"@.len() == 6);
}

/// Parsing a fail mode ignores case: two strings with the same lowercase form
/// name the same fail mode, or are rejected with the same message.
pub proof fn lemma_fail_mode_parse_ignores_case(s1: Seq<char>, s2: Seq<char>)
    requires
        lowercase(s1) == lowercase(s2),
    ensures
        fail_mode_of(s1) == fail_mode_of(s2),
{
}

/// The name of a fail mode is made of ASCII lowercase letters.
pub proof fn lemma_fail_mode_name_is_ascii_lowercase(mode: ScreeningFailMode)
    ensures
        is_ascii_lowercase_word(fail_mode_name(mode)),
{
    reveal_strlit("open");
    reveal_strlit("closed");
}

/// Only the two names are accepted: an already lowercased string parses
/// exactly when it is `"open"` (giving `Open`) or `"closed"` (giving
/// `Closed`); every other string is rejected.
pub proof fn lemma_only_open_and_closed_accepted(lower: Seq<char>)
    ensures
        fail_mode_of_lowercase(lower) is Ok <==> (lower == "open"@ || lower == "closed"@),
        fail_mode_of_lowercase(lower) == Ok::<ScreeningFailMode, Seq<char>>(
            ScreeningFailMode::Open,
        ) <==> lower == "open"@,
        fail_mode_of_lowercase(lower) == Ok::<ScreeningFailMode, Seq<char>>(
            ScreeningFailMode::Closed,
        ) <==> lower == "closed"@,
{
    reveal_strlit("open");
    reveal_strlit("closed");
    assert("open"@.len() == 4);
    assert("closed"@.len() == 6);
}

/// Parsing any string succeeds exactly when its lowercase form is `"open"`
/// (giving `Open`) or `"closed"` (giving `Closed`); every other string is
/// rejected.
pub proof fn lemma_parse_accepts_only_open_and_closed(s: Seq<char>)
    ensures
        fail_mode_of(s) is Ok <==> (lowercase(s) == "open"@ || lowercase(s) == "closed"@),
        fail_mode_of(s) == Ok::<ScreeningFailMode, Seq<char>>(ScreeningFailMode::Open) <==> lowercase(
            s,
        ) == "open"@,
        fail_mode_of(s) == Ok::<ScreeningFailMode, Seq<char>>(ScreeningFailMode::Closed)
            <==> lowercase(s) == "closed"@,
{
    lemma_only_open_and_closed_accepted(lowercase(s));
}

impl ScreeningFailMode {
    /// The fail mode named by `lower`, which the caller has already
    /// lowercased: `"open"` or `"closed"`, anything else is rejected with a
    /// message that quotes it.
    pub fn parse_lowercase(lower: &str) -> (parsed: Result<ScreeningFailMode, String>)
        ensures
            string_result_view(parsed) == fail_mode_of_lowercase(lower@),
    {
        let given = lower.to_owned();
        if given == "open".to_owned() {
            Ok(ScreeningFailMode::Open)
        } else if given == "closed".to_owned() {
            Ok(ScreeningFailMode::Closed)
        } else {
            let quoted = debug_quote(lower);
            Err(ScreeningFailMode::rejection_message(quoted.as_str()))
        }
    }

    /// The message that rejects a fail mode, given its quoted rendering.
    pub fn rejection_message(quoted: &str) -> (msg: String)
        ensures
            msg@ == rejection_text(quoted@),
    {
        let mut msg = "invalid screening fail mode: ".to_owned();
        msg.append(quoted);
        msg.append(", expected \"open\" or \"closed\"");
        msg
    }

    /// Parses a fail mode case-insensitively: `"open"` or `"closed"` in any
    /// case; anything else is rejected with a message quoting its lowercase
    /// form.
    ///
    /// The name of a fail mode parses back to that fail mode.
    pub fn parse(s: &str) -> (parsed: Result<ScreeningFailMode, String>)
        ensures
            string_result_view(parsed) == fail_mode_of(s@),
            forall|mode: ScreeningFailMode| #[trigger] fail_mode_name(mode) == s@ ==> parsed
                == Ok::<ScreeningFailMode, String>(mode),
    {
        let lower = to_lowercase(s);
        proof {
            assert forall|mode: ScreeningFailMode| #[trigger] fail_mode_name(mode) == s@ implies lower@
                == s@ by {
                lemma_fail_mode_name_is_ascii_lowercase(mode);
            }
            assert forall|mode: ScreeningFailMode| #[trigger] fail_mode_name(mode) == s@ implies fail_mode_of(
                s@,
            ) == Ok::<ScreeningFailMode, Seq<char>>(mode) by {
                lemma_fail_mode_name_is_ascii_lowercase(mode);
                lemma_fail_mode_name_roundtrip(mode);
            }
        }
        ScreeningFailMode::parse_lowercase(lower.as_str())
    }

    /// The name of the fail mode: `"open"` or `"closed"`.
    pub fn to_string(&self) -> (name: String)
        ensures
            name@ == fail_mode_name(*self),
    {
        match self {
            ScreeningFailMode::Open => "open".to_owned(),
            ScreeningFailMode::Closed => "closed".to_owned(),
        }
    }
}

impl std::str::FromStr for ScreeningFailMode {
    type Err = String;

    /// Same as [`ScreeningFailMode::parse`]; in particular the name of a fail
    /// mode (see [`ScreeningFailMode::to_string`]) parses back to that mode.
    fn from_str(s: &str) -> (parsed: Result<Self, Self::Err>)
        ensures
            string_result_view(parsed) == fail_mode_of(s@),
            forall|mode: ScreeningFailMode| #[trigger] fail_mode_name(mode) == s@ ==> parsed
                == Ok::<ScreeningFailMode, String>(mode),
    {
        ScreeningFailMode::parse(s)
    }
}

/// Error type for screening operations.
#[derive(Clone, Debug)]
pub enum ScreeningError {
    /// The ECSD sidecar is unreachable or returned a gRPC error.
    SidecarError(String),
    /// Failed to build the gRPC channel.
    BuildError(String),
}

/// The display text of a screening error.
pub open spec fn screening_error_message(e: ScreeningError) -> Seq<char> {
    match e {
        ScreeningError::SidecarError(m) => "screening sidecar error: "@ + m@,
        ScreeningError::BuildError(m) => "screening client build error: "@ + m@,
    }
}

impl ScreeningError {
    /// The display text of the error: its kind, then the underlying message.
    pub fn to_string(&self) -> (text: String)
        ensures
            text@ == screening_error_message(*self),
    {
        match self {
            ScreeningError::SidecarError(m) => {
                let mut text = "screening sidecar error: ".to_owned();
                text.append(m.as_str());
                text
            },
            ScreeningError::BuildError(m) => {
                let mut text = "screening client build error: ".to_owned();
                text.append(m.as_str());
                text
            },
        }
    }
}

/// How a `BatchCheckAddresses` call to the sidecar ended.
pub enum SidecarReply {
    /// The sidecar answered with the flagged (found-in-blocklist) addresses.
    Found(Vec<String>),
    /// The sidecar returned a gRPC error, rendered as text.
    Status(String),
    /// No answer came within the request timeout.
    TimedOut,
}

/// Whether `outcome` lets the transaction through: no flagged address.
pub open spec fn lets_through(outcome: Result<Vec<String>, ScreeningError>) -> bool {
    outcome matches Ok(flagged) && flagged@.len() == 0
}

/// Whether `outcome` rejects with a sidecar error carrying `msg`.
pub open spec fn rejects_with(outcome: Result<Vec<String>, ScreeningError>, msg: Seq<char>) -> bool {
    outcome matches Err(ScreeningError::SidecarError(m)) && m@ == msg
}

/// What a failed sidecar call with message `msg` yields under `mode`:
/// fail-open lets the transaction through, fail-closed rejects it with the
/// message.
pub open spec fn failure_outcome(
    mode: ScreeningFailMode,
    outcome: Result<Vec<String>, ScreeningError>,
    msg: Seq<char>,
) -> bool {
    match mode {
        ScreeningFailMode::Open => lets_through(outcome),
        ScreeningFailMode::Closed => rejects_with(outcome, msg),
    }
}

/// A failed sidecar call (gRPC error or timeout) never lets a transaction
/// through under fail-closed: the outcome is a sidecar error carrying the
/// failure's message, whatever that message is. Under fail-open it is always
/// an empty list of flagged addresses.
pub proof fn lemma_failure_outcome_by_mode(
    outcome: Result<Vec<String>, ScreeningError>,
    msg: Seq<char>,
)
    ensures
        failure_outcome(ScreeningFailMode::Closed, outcome, msg) ==> (outcome matches Err(
            ScreeningError::SidecarError(m),
        ) && m@ == msg),
        failure_outcome(ScreeningFailMode::Closed, outcome, msg) ==> !(outcome is Ok),
        failure_outcome(ScreeningFailMode::Open, outcome, msg) ==> (outcome matches Ok(flagged)
            && flagged@.len() == 0),
{
}

/// Client configuration for the ECSD address screening sidecar. A client made
/// by [`ScreeningClientBuilder::build`] has an endpoint accepted as a URI.
pub struct ScreeningClient {
    /// gRPC endpoint of the sidecar.
    pub endpoint: String,
    /// Behavior when the sidecar is unavailable.
    pub fail_mode: ScreeningFailMode,
    /// Request timeout.
    pub timeout: std::time::Duration,
}

impl ScreeningClient {
    /// Handles a sidecar error according to the configured fail mode:
    /// fail-open lets the transaction pass (no flagged address), fail-closed
    /// rejects with the error.
    pub fn handle_error(&self, error: String) -> (outcome: Result<Vec<String>, ScreeningError>)
        ensures
            failure_outcome(self.fail_mode, outcome, error@),
    {
        match self.fail_mode {
            ScreeningFailMode::Open => Ok(Vec::new()),
            ScreeningFailMode::Closed => Err(ScreeningError::SidecarError(error)),
        }
    }

    /// Turns the reply of a `BatchCheckAddresses` call into the list of
    /// flagged addresses. An answer is passed on as it came, whatever the fail
    /// mode; a gRPC error or a timeout is handled by [`Self::handle_error`],
    /// a timeout with the message `"request timed out"`.
    pub fn screening_result(&self, reply: SidecarReply) -> (outcome: Result<
        Vec<String>,
        ScreeningError,
    >)
        ensures
            match reply {
                SidecarReply::Found(found) => outcome == Ok::<Vec<String>, ScreeningError>(found),
                SidecarReply::Status(status) => failure_outcome(self.fail_mode, outcome, status@),
                SidecarReply::TimedOut => failure_outcome(
                    self.fail_mode,
                    outcome,
                    "request timed out"@,
                ),
            },
    {
        match reply {
            SidecarReply::Found(found) => Ok(found),
            SidecarReply::Status(status) => self.handle_error(status),
            SidecarReply::TimedOut => self.handle_error("request timed out".to_owned()),
        }
    }
}

/// Builder for [`ScreeningClient`].
pub struct ScreeningClientBuilder {
    /// gRPC endpoint of the sidecar.
    pub endpoint: String,
    /// Request timeout.
    pub timeout: std::time::Duration,
    /// Behavior when the sidecar is unavailable.
    pub fail_mode: ScreeningFailMode,
}

impl ScreeningClientBuilder {
    /// Creates a new builder with the given ECSD endpoint, a request timeout
    /// of 100 ms and the fail-open mode.
    pub fn new(endpoint: &str) -> (builder: Self)
        ensures
            builder.endpoint@ == endpoint@,
            builder.timeout == duration_from_millis(100),
            builder.fail_mode == ScreeningFailMode::Open,
    {
        ScreeningClientBuilder {
            endpoint: endpoint.to_owned(),
            timeout: duration_of_millis(100),
            fail_mode: ScreeningFailMode::Open,
        }
    }

    /// Sets the request timeout.
    pub fn timeout(self, timeout: std::time::Duration) -> (builder: Self)
        ensures
            builder.endpoint == self.endpoint,
            builder.timeout == timeout,
            builder.fail_mode == self.fail_mode,
    {
        let mut builder = self;
        builder.timeout = timeout;
        builder
    }

    /// Sets the fail mode.
    pub fn fail_mode(self, fail_mode: ScreeningFailMode) -> (builder: Self)
        ensures
            builder.endpoint == self.endpoint,
            builder.timeout == self.timeout,
            builder.fail_mode == fail_mode,
    {
        let mut builder = self;
        builder.fail_mode = fail_mode;
        builder
    }

    /// Finishes the client once the endpoint has been checked as a URI:
    /// `uri_error` is the rejection of the endpoint, if any, which becomes a
    /// build error; otherwise the client keeps the builder's settings.
    pub fn build_checked(self, uri_error: Option<String>) -> (built: Result<
        ScreeningClient,
        ScreeningError,
    >)
        ensures
            match uri_error {
                Some(msg) => (built matches Err(ScreeningError::BuildError(e)) && e@ == msg@),
                None => (built matches Ok(client) && client.endpoint == self.endpoint
                    && client.fail_mode == self.fail_mode && client.timeout == self.timeout),
            },
    {
        match uri_error {
            Some(msg) => Err(ScreeningError::BuildError(msg)),
            None => Ok(
                ScreeningClient {
                    endpoint: self.endpoint,
                    fail_mode: self.fail_mode,
                    timeout: self.timeout,
                },
            ),
        }
    }

    /// Builds the [`ScreeningClient`]: the endpoint must be accepted as a URI
    /// by `tonic::transport::Channel::from_shared`, else the build fails with
    /// the URI error. No connection is made here.
    pub fn build(self) -> (built: Result<ScreeningClient, ScreeningError>)
        ensures
            match endpoint_uri_error(self.endpoint@) {
                Some(msg) => (built matches Err(ScreeningError::BuildError(e)) && e@ == msg),
                None => (built matches Ok(client) && client.endpoint == self.endpoint
                    && client.fail_mode == self.fail_mode && client.timeout == self.timeout),
            },
    {
        let uri_error = check_endpoint_uri(self.endpoint.as_str());
        self.build_checked(uri_error)
    }
}

} // verus!
