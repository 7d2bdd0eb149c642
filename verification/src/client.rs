//! Client settings, authentication and the reading of API answers.

use vstd::prelude::*;
use crate::error::{CliError, CliErrorView};
use crate::model::{GitLabConfig, TokenKind};
use vstd::string::StringSliceAdditionalSpecFns;

verus! {

/// The first of two optional values that is present.
pub open spec fn first_present(a: Option<Seq<char>>, b: Option<Seq<char>>) -> Option<Seq<char>> {
    match a {
        Some(x) => Some(x),
        None => b,
    }
}

/// The view of an optional text.
pub open spec fn opt_view(s: Option<&str>) -> Option<Seq<char>> {
    match s {
        Some(x) => Some(x@),
        None => None,
    }
}

fn first_of(a: Option<&str>, b: Option<&str>) -> (r: Option<String>)
    ensures
        match r {
            Some(x) => first_present(opt_view(a), opt_view(b)) == Some(x@),
            None => first_present(opt_view(a), opt_view(b)) is None,
        },
{
    match a {
        Some(x) => Some(String::from_str(x)),
        None => match b {
            Some(y) => Some(String::from_str(y)),
            None => None,
        },
    }
}

/// Chooses the token: with `use_private_token`, the private token given on the
/// command line or else the one from `GITLAB_PRIVATE_TOKEN`; otherwise the job
/// token given on the command line or else the one from `CI_JOB_TOKEN`. A value
/// given on the command line always wins over the environment.
pub fn select_token(
    use_private_token: bool,
    private_token: Option<&str>,
    private_token_env: Option<&str>,
    job_token: Option<&str>,
    job_token_env: Option<&str>,
) -> (r: Result<(String, TokenKind), CliError>)
    ensures
        use_private_token ==> match first_present(opt_view(private_token), opt_view(private_token_env)) {
            Some(t) => r matches Ok((x, k)) && x@ == t && k == TokenKind::Private,
            None => r == Err::<(String, TokenKind), CliError>(CliError::MissingPrivateToken),
        },
        !use_private_token ==> match first_present(opt_view(job_token), opt_view(job_token_env)) {
            Some(t) => r matches Ok((x, k)) && x@ == t && k == TokenKind::Job,
            None => r == Err::<(String, TokenKind), CliError>(CliError::MissingJobToken),
        },
{
    if use_private_token {
        match first_of(private_token, private_token_env) {
            Some(t) => Ok((t, TokenKind::Private)),
            None => Err(CliError::MissingPrivateToken),
        }
    } else {
        match first_of(job_token, job_token_env) {
            Some(t) => Ok((t, TokenKind::Job)),
            None => Err(CliError::MissingJobToken),
        }
    }
}

/// The header that carries a token of this kind.
pub open spec fn token_header_spec(kind: TokenKind) -> Seq<char> {
    match kind {
        TokenKind::Private => "PRIVATE-TOKEN"@,
        TokenKind::Job => "JOB-TOKEN"@,
    }
}

/// The name of the header that carries a token of this kind.
pub fn token_header(kind: &TokenKind) -> (name: &'static str)
    ensures
        name@ == token_header_spec(*kind),
{
    match kind {
        TokenKind::Private => "PRIVATE-TOKEN",
        TokenKind::Job => "JOB-TOKEN",
    }
}

/// What the client needs to connect: the API root, the token and its kind.
#[derive(Debug)]
pub struct ClientSetup {
    pub api_url: String,
    pub token: String,
    pub token_kind: TokenKind,
}

/// The token that `select_token` chooses, if there is one.
pub open spec fn chosen_token(
    use_private_token: bool,
    private_token: Option<Seq<char>>,
    private_token_env: Option<Seq<char>>,
    job_token: Option<Seq<char>>,
    job_token_env: Option<Seq<char>>,
) -> Option<Seq<char>> {
    if use_private_token {
        first_present(private_token, private_token_env)
    } else {
        first_present(job_token, job_token_env)
    }
}

/// Whether a byte may stand in an HTTP header value: a tab, or any byte from
/// the space up, except DEL (the rule of `http::HeaderValue::from_str`).
pub open spec fn is_header_value_byte(b: u8) -> bool {
    (b >= 32 && b != 127) || b == 9
}

/// Whether every byte of `bytes` may stand in an HTTP header value.
pub open spec fn is_header_value(bytes: Seq<u8>) -> bool {
    forall|i: int| 0 <= i < bytes.len() ==> #[trigger] is_header_value_byte(bytes[i])
}

/// Whether the UTF-8 bytes of `text` can be sent as an HTTP header value.
pub fn valid_header_value(text: &str) -> (b: bool)
    ensures
        b == is_header_value(vstd::utf8::encode_utf8(text@)),
{
    let bytes = text.as_bytes();
    let mut i: usize = 0;
    while i < bytes.len()
        invariant
            i <= bytes@.len(),
            bytes@ == vstd::utf8::encode_utf8(text@),
            forall|j: int| 0 <= j < i ==> #[trigger] is_header_value_byte(bytes@[j]),
        decreases bytes@.len() - i,
    {
        let b = bytes[i];
        if !((b >= 32 && b != 127) || b == 9) {
            assert(!is_header_value_byte(bytes@[i as int]));
            return false;
        }
        i = i + 1;
    }
    true
}

/// Resolves the connection settings: the API root must be given (on the
/// command line or by `CI_API_V4_URL`), then the token is chosen by
/// `select_token`, and it must be fit to send as a header value.
pub fn resolve_client(
    api_url: Option<&str>,
    use_private_token: bool,
    private_token: Option<&str>,
    private_token_env: Option<&str>,
    job_token: Option<&str>,
    job_token_env: Option<&str>,
) -> (r: Result<ClientSetup, CliError>)
    ensures
        ({
            let chosen = chosen_token(
                use_private_token,
                opt_view(private_token),
                opt_view(private_token_env),
                opt_view(job_token),
                opt_view(job_token_env),
            );
            match r {
                Ok(setup) => api_url matches Some(u) && setup.api_url@ == u@ && chosen == Some(
                    setup.token@,
                ) && setup.token_kind == (if use_private_token {
                    TokenKind::Private
                } else {
                    TokenKind::Job
                }) && is_header_value(vstd::utf8::encode_utf8(setup.token@)),
                Err(e) => match api_url {
                    None => e == CliError::MissingApiUrl,
                    Some(_) => match chosen {
                        None => e == (if use_private_token {
                            CliError::MissingPrivateToken
                        } else {
                            CliError::MissingJobToken
                        }),
                        Some(t) => !is_header_value(vstd::utf8::encode_utf8(t)) && e
                            == CliError::InvalidTokenValue,
                    },
                },
            }
        }),
{
    let url = match api_url {
        Some(u) => String::from_str(u),
        None => {
            return Err(CliError::MissingApiUrl);
        },
    };
    match select_token(use_private_token, private_token, private_token_env, job_token, job_token_env) {
        Ok((token, token_kind)) => {
            if valid_header_value(token.as_str()) {
                Ok(ClientSetup { api_url: url, token, token_kind })
            } else {
                Err(CliError::InvalidTokenValue)
            }
        },
        Err(e) => Err(e),
    }
}

/// Reads the configuration from the values of `CI_API_V4_URL`,
/// `GITLAB_PRIVATE_TOKEN`, `GITLAB_TOKEN` and `CI_JOB_TOKEN`: the API root must
/// be set, and the token is the first of the three that is set, in that order.
pub fn load_config(
    api_url: Option<&str>,
    private_token: Option<&str>,
    token: Option<&str>,
    job_token: Option<&str>,
) -> (r: Result<GitLabConfig, CliError>)
    ensures
        match r {
            Ok(config) => api_url matches Some(u) && config.api_url@ == u@ && first_present(
                opt_view(private_token),
                first_present(opt_view(token), opt_view(job_token)),
            ) == Some(config.token@),
            Err(e) => (api_url is None && e == CliError::ApiUrlUnset) || (api_url is Some
                && first_present(
                opt_view(private_token),
                first_present(opt_view(token), opt_view(job_token)),
            ) is None && e == CliError::TokenUnset),
        },
{
    let url = match api_url {
        Some(u) => String::from_str(u),
        None => {
            return Err(CliError::ApiUrlUnset);
        },
    };
    let chosen = match private_token {
        Some(t) => Some(String::from_str(t)),
        None => first_of(token, job_token),
    };
    match chosen {
        Some(t) => Ok(GitLabConfig { api_url: url, token: t }),
        None => Err(CliError::TokenUnset),
    }
}

/// The log line that announces a request.
pub fn log_request(method: &str, url: &str) -> (line: String)
    ensures
        line@ == "--> "@ + method@ + " "@ + url@,
{
    let mut line = String::from_str("--> ");
    line.append(method);
    line.append(" ");
    line.append(url);
    line
}

/// Whether an HTTP status reports success (2xx).
pub open spec fn is_success_status(status: u16) -> bool {
    200 <= status <= 299
}

/// How many bytes of an error answer are reported: at most 1024.
pub open spec fn preview_len(n: int) -> int {
    if n < 1024 {
        n
    } else {
        1024
    }
}

/// Whether the first `preview_len` bytes of `text` end on a character boundary,
/// so that they can be cut off without splitting a character.
pub open spec fn preview_fits(text: Seq<char>) -> bool {
    let bytes = vstd::utf8::encode_utf8(text);
    vstd::utf8::is_char_boundary(bytes, preview_len(bytes.len() as int))
}

/// The first `preview_len` bytes of `text`, as text.
pub open spec fn preview(text: Seq<char>) -> Seq<char> {
    let bytes = vstd::utf8::encode_utf8(text);
    vstd::utf8::decode_utf8(bytes.subrange(0, preview_len(bytes.len() as int)))
}

/// Whether `status` succeeded.
pub fn is_success(status: u16) -> (b: bool)
    ensures
        b == is_success_status(status),
{
    200 <= status && status <= 299
}

/// Checks an API answer: a 2xx answer gives its body; any other fails with the
/// URL, the status and the first 1024 bytes of the body text.
pub fn read_response(status: u16, status_text: &str, url: &str, body: Vec<u8>, body_text: &str) -> (r:
    Result<Vec<u8>, CliError>)
    requires
        vstd::utf8::encode_utf8(body_text@).len() <= usize::MAX,
        !is_success_status(status) ==> preview_fits(body_text@),
    ensures
        is_success_status(status) ==> (r matches Ok(b) && b@ == body@),
        !is_success_status(status) ==> (r matches Err(e) && e@ == (CliErrorView::RequestFailed {
            url: url@,
            status: status_text@,
            response: preview(body_text@),
        })),
{
    if is_success(status) {
        return Ok(body);
    }
    let n = body_text.len();
    let cut = if n < 1024 {
        n
    } else {
        1024
    };
    let (head, _) = body_text.split_at(cut);
    proof {
        broadcast use vstd::utf8::encode_utf8_decode_utf8;

        assert(vstd::utf8::decode_utf8(vstd::utf8::encode_utf8(head@)) == head@);
        assert(head.spec_bytes() == vstd::utf8::encode_utf8(head@));
    }
    Err(
        CliError::RequestFailed {
            url: String::from_str(url),
            status: String::from_str(status_text),
            response: head.to_owned(),
        },
    )
}

/// A value given on the command line wins over the environment, and the
/// environment is used only when the command line gives nothing; the private
/// token is used only with `--use-private-token`, the job token only without it.
pub proof fn lemma_command_line_wins(
    use_private_token: bool,
    cli_private: Option<Seq<char>>,
    env_private: Option<Seq<char>>,
    cli_job: Option<Seq<char>>,
    env_job: Option<Seq<char>>,
)
    ensures
        use_private_token && cli_private is Some ==> chosen_token(
            use_private_token,
            cli_private,
            env_private,
            cli_job,
            env_job,
        ) == cli_private,
        use_private_token && cli_private is None ==> chosen_token(
            use_private_token,
            cli_private,
            env_private,
            cli_job,
            env_job,
        ) == env_private,
        !use_private_token && cli_job is Some ==> chosen_token(
            use_private_token,
            cli_private,
            env_private,
            cli_job,
            env_job,
        ) == cli_job,
        !use_private_token && cli_job is None ==> chosen_token(
            use_private_token,
            cli_private,
            env_private,
            cli_job,
            env_job,
        ) == env_job,
{
}

/// The configuration's token is `GITLAB_PRIVATE_TOKEN` when it is set, else
/// `GITLAB_TOKEN` when that is set, else `CI_JOB_TOKEN`.
pub proof fn lemma_config_token_order(
    private_token: Option<Seq<char>>,
    token: Option<Seq<char>>,
    job_token: Option<Seq<char>>,
)
    ensures
        private_token is Some ==> first_present(private_token, first_present(token, job_token))
            == private_token,
        private_token is None && token is Some ==> first_present(
            private_token,
            first_present(token, job_token),
        ) == token,
        private_token is None && token is None ==> first_present(
            private_token,
            first_present(token, job_token),
        ) == job_token,
{
}

/// The report of a failed answer keeps the body whole when it has at most 1024
/// bytes, and otherwise exactly its first 1024 bytes.
pub proof fn lemma_preview_is_the_head(text: Seq<char>)
    requires
        preview_fits(text),
    ensures
        vstd::utf8::encode_utf8(text).len() <= 1024 ==> preview(text) == text,
        vstd::utf8::encode_utf8(text).len() > 1024 ==> vstd::utf8::encode_utf8(preview(text))
            == vstd::utf8::encode_utf8(text).subrange(0, 1024),
{
    broadcast use vstd::utf8::encode_utf8_decode_utf8, vstd::utf8::decode_utf8_encode_utf8, vstd::utf8::valid_utf8_split, vstd::utf8::encode_utf8_valid_utf8;

    let bytes = vstd::utf8::encode_utf8(text);
    if bytes.len() <= 1024 {
        assert(bytes.subrange(0, bytes.len() as int) =~= bytes);
    } else {
        assert(vstd::utf8::valid_utf8(bytes));
        assert(vstd::utf8::valid_utf8(bytes.subrange(0, 1024)));
    }
}

} // verus!
