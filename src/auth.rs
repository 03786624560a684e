//! Authentication sequencing: the calls made on the connection before the
//! receive loop starts.

use vstd::prelude::*;
use vstd::string::StrSliceExecFns;

verus! {

/// What base64 (standard alphabet, with padding) makes of the UTF-8 bytes of
/// a text.
pub uninterp spec fn base64_text(s: Seq<char>) -> Seq<char>;

/// The longest input, in characters, handed to the base64 encoder: a machine
/// limit, not a policy. A character takes at most four bytes, so such an input
/// has at most `usize::MAX / 2` bytes, and its encoded size still fits in
/// `usize`; no text a machine can hold in memory comes near it.
pub const MAX_CREDENTIALS_CHARS: usize = usize::MAX / 8;

/// Relies on `base64::encode` (base64 0.13): the standard base64 text of the
/// bytes of `s`. It panics only when the encoded size overflows `usize`,
/// which the bound on the input rules out.
#[verifier::external_body]
fn encode_base64(s: &str) -> (r: String)
    requires
        s@.len() <= MAX_CREDENTIALS_CHARS,
    ensures
        r@ == base64_text(s@),
{
    base64::encode(s.as_bytes())
}

/// One call made on the connection while authenticating.
#[derive(Clone, Debug, PartialEq, Eq)]
pub enum AuthStep {
    /// Ask the server for the `sasl` capability.
    RequestSaslCapability,
    /// Start a SASL PLAIN exchange.
    BeginSaslPlain,
    /// Send an `AUTHENTICATE` command with this payload.
    Authenticate(String),
    /// Identify with the configured nickname.
    Identify,
}

/// The model of an [`AuthStep`], with the payload as a sequence of characters.
pub ghost enum AuthStepModel {
    RequestSaslCapability,
    BeginSaslPlain,
    Authenticate(Seq<char>),
    Identify,
}

impl View for AuthStep {
    type V = AuthStepModel;

    open spec fn view(&self) -> AuthStepModel {
        match self {
            AuthStep::RequestSaslCapability => AuthStepModel::RequestSaslCapability,
            AuthStep::BeginSaslPlain => AuthStepModel::BeginSaslPlain,
            AuthStep::Authenticate(p) => AuthStepModel::Authenticate(p@),
            AuthStep::Identify => AuthStepModel::Identify,
        }
    }
}

/// The SASL PLAIN credentials: `nick NUL nick NUL secret`.
pub open spec fn plain_credentials(nick: Seq<char>, secret: Seq<char>) -> Seq<char> {
    nick + seq!['\0'] + nick + seq!['\0'] + secret
}

/// The calls made to authenticate as `nick`, with or without a secret.
pub open spec fn auth_sequence(nick: Seq<char>, secret: Option<Seq<char>>) -> Seq<AuthStepModel> {
    match secret {
        None => seq![AuthStepModel::Identify],
        Some(pw) => seq![
            AuthStepModel::RequestSaslCapability,
            AuthStepModel::BeginSaslPlain,
            AuthStepModel::Authenticate(base64_text(plain_credentials(nick, pw))),
            AuthStepModel::Identify,
        ],
    }
}

/// The views of a sequence of steps.
pub open spec fn steps_view(steps: Seq<AuthStep>) -> Seq<AuthStepModel> {
    steps.map_values(|s: AuthStep| s@)
}

/// The secret as an optional sequence of characters.
pub open spec fn secret_view(secret: Option<String>) -> Option<Seq<char>> {
    match secret {
        None => None,
        Some(s) => Some(s@),
    }
}

/// Why authentication could not be planned.
#[derive(Clone, Debug, PartialEq, Eq)]
pub enum AuthError {
    /// The credentials are longer than [`MAX_CREDENTIALS_CHARS`] characters,
    /// more than any machine can hold.
    CredentialsTooLong,
}

/// Builds `nick NUL nick NUL secret`.
pub fn sasl_plain_credentials(nick: &str, secret: &str) -> (r: String)
    ensures
        r@ == plain_credentials(nick@, secret@),
{
    let mut r = nick.to_owned();
    r.append("\0");
    r.append(nick);
    r.append("\0");
    r.append(secret);
    proof {
        reveal_strlit("\0");
    }
    r
}

/// The calls to make on the connection before anything is received: a lone
/// `identify` without a secret; with one, the SASL PLAIN exchange carrying
/// the base64 credentials, then `identify`.
pub fn auth_plan(nick: &str, secret: &Option<String>) -> (r: Result<Vec<AuthStep>, AuthError>)
    ensures
        r matches Ok(steps) ==> steps_view(steps@) == auth_sequence(nick@, secret_view(*secret)),
        r matches Err(e) ==> e == AuthError::CredentialsTooLong,
        r is Err <==> (secret is Some
            && plain_credentials(nick@, secret->0@).len() > MAX_CREDENTIALS_CHARS),
{
    match secret {
        None => {
            let steps = vec![AuthStep::Identify];
            proof {
                assert(steps_view(steps@) =~= auth_sequence(nick@, secret_view(*secret)));
            }
            Ok(steps)
        },
        Some(pw) => {
            let creds = sasl_plain_credentials(nick, pw.as_str());
            let creds_str = creds.as_str();
            if creds_str.unicode_len() > MAX_CREDENTIALS_CHARS {
                return Err(AuthError::CredentialsTooLong);
            }
            let payload = encode_base64(creds_str);
            let steps = vec![
                AuthStep::RequestSaslCapability,
                AuthStep::BeginSaslPlain,
                AuthStep::Authenticate(payload),
                AuthStep::Identify,
            ];
            proof {
                assert(steps_view(steps@) =~= auth_sequence(nick@, secret_view(*secret)));
            }
            Ok(steps)
        },
    }
}

/// Authentication is repeatable: two plans made from the same nickname and
/// secret call the connection in the same order with the same payload. With a
/// secret that order is capability request, SASL start, `AUTHENTICATE` with
/// the base64 credentials, `identify`; without one it is `identify` alone.
pub proof fn lemma_auth_plan_repeatable(
    nick: Seq<char>,
    secret: Option<Seq<char>>,
    first: Seq<AuthStep>,
    second: Seq<AuthStep>,
)
    requires
        steps_view(first) == auth_sequence(nick, secret),
        steps_view(second) == auth_sequence(nick, secret),
    ensures
        steps_view(first) == steps_view(second),
        first.len() == second.len(),
        secret is None ==> first.len() == 1 && first[0] == AuthStep::Identify,
        secret matches Some(pw) ==> {
            &&& first.len() == 4
            &&& first[0] == AuthStep::RequestSaslCapability
            &&& first[1] == AuthStep::BeginSaslPlain
            &&& first[2] matches AuthStep::Authenticate(p)
            &&& p@ == base64_text(plain_credentials(nick, pw))
            &&& first[3] == AuthStep::Identify
        },
{
    assert(steps_view(first).len() == first.len());
    assert(steps_view(second).len() == second.len());
    if secret is None {
        assert(steps_view(first)[0] == first[0]@);
    } else {
        assert(steps_view(first)[0] == first[0]@);
        assert(steps_view(first)[1] == first[1]@);
        assert(steps_view(first)[2] == first[2]@);
        assert(steps_view(first)[3] == first[3]@);
    }
}

} // verus!
