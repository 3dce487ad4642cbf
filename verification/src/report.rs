//! What is said to the collector and what its answers mean: the two
//! endpoints, the headers of a request, and the classes of failure.

use vstd::prelude::*;

verus! {

/// The address under which the collector is reached.
pub const BASE_URL: &'static str = "https://discordanalytics.xyz/api";

/// The seconds after which a request counts as one that obtained no status.
pub const REQUEST_TIMEOUT: u64 = 10;

/// The status with which the collector rejects the credential.
pub const STATUS_INVALID_TOKEN: u16 = 401;

/// The status with which the collector answers for a suspended bot.
pub const STATUS_SUSPENDED: u16 = 423;

/// What is said of a failure whose status is none of those named here.
pub const INVALID_RESPONSE: &'static str =
    "Invalid response from the API, please try again later.";

/// What is said of a rejected credential.
pub const INVALID_API_TOKEN: &'static str =
    "Invalid API token, please get one at https://discordanalytics.xyz and try again.";

/// What is said of a suspended bot.
pub const SUSPENDED_BOT: &'static str =
    "Your bot has been suspended, please check your mailbox for more information.";

/// What is said of a request that obtained no status.
pub const UNREACHABLE_API: &'static str = "The API could not be reached, please try again later.";

/// What is said of an instance that is used before it was initialized.
pub const INSTANCE_NOT_INITIALIZED: &'static str =
    "It seem that you didn't initialize your instance. Please check the docs for more informations.";

/// Why a report did not reach the collector or was not taken.
#[derive(Clone, Copy, Debug, PartialEq, Eq, Structural)]
pub enum ReportError {
    /// The collector rejected the credential.
    AuthError,
    /// The collector has suspended the bot.
    SuspendedError,
    /// The collector answered with another status outside the successes.
    ProtocolError,
    /// No status was obtained: the connection failed or timed out.
    TransportError,
}

impl ReportError {
    /// Whether asking again cannot help: the credential or the account has to
    /// be put right first.
    pub open spec fn fatal(self) -> bool {
        self == ReportError::AuthError || self == ReportError::SuspendedError
    }

    /// Whether asking again cannot help.
    #[verifier::when_used_as_spec(fatal)]
    pub fn is_fatal(self) -> (fatal: bool)
        ensures
            fatal == self.fatal(),
    {
        match self {
            ReportError::AuthError => true,
            ReportError::SuspendedError => true,
            ReportError::ProtocolError => false,
            ReportError::TransportError => false,
        }
    }
}

impl ReportError {
    /// What is said to the operator of each class of failure.
    pub open spec fn message_of(self) -> Seq<char> {
        match self {
            ReportError::AuthError => INVALID_API_TOKEN@,
            ReportError::SuspendedError => SUSPENDED_BOT@,
            ReportError::ProtocolError => INVALID_RESPONSE@,
            ReportError::TransportError => UNREACHABLE_API@,
        }
    }

    /// What is said to the operator of this failure.
    pub fn message(self) -> (text: &'static str)
        ensures
            text@ == self.message_of(),
    {
        match self {
            ReportError::AuthError => INVALID_API_TOKEN,
            ReportError::SuspendedError => SUSPENDED_BOT,
            ReportError::ProtocolError => INVALID_RESPONSE,
            ReportError::TransportError => UNREACHABLE_API,
        }
    }
}

/// What an answer of the collector means. `None` stands for a request that
/// obtained no status.
pub open spec fn outcome_of(response: Option<u16>) -> Result<(), ReportError> {
    match response {
        None => Err(ReportError::TransportError),
        Some(status) => if 200 <= status < 300 {
            Ok(())
        } else if status == STATUS_INVALID_TOKEN {
            Err(ReportError::AuthError)
        } else if status == STATUS_SUSPENDED {
            Err(ReportError::SuspendedError)
        } else {
            Err(ReportError::ProtocolError)
        },
    }
}

/// An answer is a success exactly for a status from 200 to 299, and a fatal
/// failure exactly for the two statuses of a rejected credential and of a
/// suspended bot. Every other answer, and no answer, is a failure after which
/// asking again can help.
pub proof fn lemma_outcomes(response: Option<u16>)
    ensures
        outcome_of(response) is Ok <==> response is Some && 200 <= response->0 < 300,
        outcome_of(response) == Err::<(), ReportError>(ReportError::AuthError) <==> response
            == Some(STATUS_INVALID_TOKEN),
        outcome_of(response) == Err::<(), ReportError>(ReportError::SuspendedError) <==> response
            == Some(STATUS_SUSPENDED),
        outcome_of(response) == Err::<(), ReportError>(ReportError::TransportError)
            <==> response is None,
        (outcome_of(response) matches Err(error) && error.fatal()) <==> (response == Some(
            STATUS_INVALID_TOKEN,
        ) || response == Some(STATUS_SUSPENDED)),
{
}

/// Classifies an answer of the collector: success for a status from 200 to
/// 299, else the class of failure.
pub fn classify_response(response: Option<u16>) -> (outcome: Result<(), ReportError>)
    ensures
        outcome == outcome_of(response),
{
    match response {
        None => Err(ReportError::TransportError),
        Some(status) => {
            if 200 <= status && status < 300 {
                Ok(())
            } else if status == STATUS_INVALID_TOKEN {
                Err(ReportError::AuthError)
            } else if status == STATUS_SUSPENDED {
                Err(ReportError::SuspendedError)
            } else {
                Err(ReportError::ProtocolError)
            }
        },
    }
}

/// The decimal digit for a number below ten.
pub open spec fn digit(d: int) -> char {
    if d == 0 {
        '0'
    } else if d == 1 {
        '1'
    } else if d == 2 {
        '2'
    } else if d == 3 {
        '3'
    } else if d == 4 {
        '4'
    } else if d == 5 {
        '5'
    } else if d == 6 {
        '6'
    } else if d == 7 {
        '7'
    } else if d == 8 {
        '8'
    } else {
        '9'
    }
}

/// A number in decimal, without leading zeros.
pub open spec fn decimal(n: nat) -> Seq<char>
    decreases n,
{
    if n < 10 {
        seq![digit(n as int)]
    } else {
        decimal(n / 10).push(digit((n % 10) as int))
    }
}

/// The text of one decimal digit.
fn digit_text(d: u64) -> (text: &'static str)
    requires
        d < 10,
    ensures
        text@ == seq![digit(d as int)],
{
    proof {
        reveal_strlit("0");
        reveal_strlit("1");
        reveal_strlit("2");
        reveal_strlit("3");
        reveal_strlit("4");
        reveal_strlit("5");
        reveal_strlit("6");
        reveal_strlit("7");
        reveal_strlit("8");
        reveal_strlit("9");
    }
    let text = if d == 0 {
        "0"
    } else if d == 1 {
        "1"
    } else if d == 2 {
        "2"
    } else if d == 3 {
        "3"
    } else if d == 4 {
        "4"
    } else if d == 5 {
        "5"
    } else if d == 6 {
        "6"
    } else if d == 7 {
        "7"
    } else if d == 8 {
        "8"
    } else {
        "9"
    };
    assert(text@ =~= seq![digit(d as int)]);
    text
}

/// Appends `n` in decimal to `out`.
pub fn push_decimal(out: &mut String, n: u64)
    ensures
        final(out)@ == old(out)@ + decimal(n as nat),
    decreases n,
{
    if n >= 10 {
        push_decimal(out, n / 10);
    }
    out.append(digit_text(n % 10));
    assert(out@ =~= old(out)@ + decimal(n as nat));
}

/// The address of a bot's own entry.
pub open spec fn bot_url_of(id: u64) -> Seq<char> {
    BASE_URL@ + "/bots/"@ + decimal(id as nat)
}

/// The address to which a bot's statistics go.
pub open spec fn stats_url_of(id: u64) -> Seq<char> {
    bot_url_of(id) + "/stats"@
}

/// The address of the entry of the bot `id`.
pub fn bot_url(id: u64) -> (url: String)
    ensures
        url@ == bot_url_of(id),
{
    let mut url = String::from_str(BASE_URL);
    url.append("/bots/");
    push_decimal(&mut url, id);
    url
}

/// The address to which the statistics of the bot `id` go.
pub fn stats_url(id: u64) -> (url: String)
    ensures
        url@ == stats_url_of(id),
{
    let mut url = bot_url(id);
    url.append("/stats");
    url
}

/// How a request is made.
#[derive(Clone, Copy, Debug, PartialEq, Eq, Structural)]
pub enum Method {
    Patch,
    Post,
}

/// One header of a request.
#[derive(Clone, Debug, PartialEq, Eq)]
pub struct Header {
    pub name: String,
    pub value: String,
}

impl View for Header {
    type V = (Seq<char>, Seq<char>);

    open spec fn view(&self) -> (Seq<char>, Seq<char>) {
        (self.name@, self.value@)
    }
}

/// Where a request goes, and how.
#[derive(Clone, Debug, PartialEq, Eq)]
pub struct Endpoint {
    pub method: Method,
    pub url: String,
    pub headers: Vec<Header>,
}

/// The headers of every request: the body is JSON, and the bot's key stands
/// as its credential.
pub open spec fn headers_of(api_key: Seq<char>) -> Seq<(Seq<char>, Seq<char>)> {
    seq![("Content-Type"@, "application/json"@), ("Authorization"@, "Bot "@ + api_key)]
}

/// The headers of a request made with the key `api_key`.
pub fn request_headers(api_key: &str) -> (headers: Vec<Header>)
    ensures
        headers@.map_values(|header: Header| header@) == headers_of(api_key@),
{
    let mut credential = String::from_str("Bot ");
    credential.append(api_key);
    let mut headers: Vec<Header> = Vec::new();
    headers.push(
        Header {
            name: String::from_str("Content-Type"),
            value: String::from_str("application/json"),
        },
    );
    headers.push(Header { name: String::from_str("Authorization"), value: credential });
    assert(headers@.map_values(|header: Header| header@) =~= headers_of(api_key@));
    headers
}

/// The request that declares the bot `id` to the collector.
pub fn registration_endpoint(api_key: &str, id: u64) -> (endpoint: Endpoint)
    ensures
        endpoint.method == Method::Patch,
        endpoint.url@ == bot_url_of(id),
        endpoint.headers@.map_values(|header: Header| header@) == headers_of(api_key@),
{
    Endpoint { method: Method::Patch, url: bot_url(id), headers: request_headers(api_key) }
}

/// The request that carries the statistics of the bot `id`.
pub fn stats_endpoint(api_key: &str, id: u64) -> (endpoint: Endpoint)
    ensures
        endpoint.method == Method::Post,
        endpoint.url@ == stats_url_of(id),
        endpoint.headers@.map_values(|header: Header| header@) == headers_of(api_key@),
{
    Endpoint { method: Method::Post, url: stats_url(id), headers: request_headers(api_key) }
}

} // verus!
