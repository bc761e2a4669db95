//! Writing one refreshed field back to the secret store: the target URL,
//! the authorization header, the JSON request body (framed and escaped
//! byte by byte), and the interpretation of the store's response.
use vstd::prelude::*;
use vstd::string::StringExecFns;
use vstd::string::StringSliceAdditionalSpecFns;
use crate::errors::RefreshError;
use crate::exchange::HttpOutcome;

verus! {

/// The confirmation record a secret write comes back with.
#[derive(Debug, Clone)]
pub struct Secret {
    pub secret: SecretItem,
}

/// The fields of the confirmation record, echoing the stored version.
#[derive(Debug, Clone)]
pub struct SecretItem {
    pub id: Option<String>,
    pub version: u64,
    pub workspace: String,
    pub secret_type: String,
    pub secret_key: String,
    pub secret_value: String,
    pub secret_comment: String,
}

/// How one byte of a string value appears inside a JSON string literal:
/// quote, backslash and the short-escape control characters take a
/// two-byte escape, other control bytes take a six-byte `\u00..` escape,
/// and every other byte stands as it is.
pub open spec fn escape_byte(b: u8) -> Seq<u8> {
    if b == 0x22 {
        seq![0x5cu8, 0x22u8]
    } else if b == 0x5c {
        seq![0x5cu8, 0x5cu8]
    } else if b == 0x08 {
        seq![0x5cu8, 0x62u8]
    } else if b == 0x09 {
        seq![0x5cu8, 0x74u8]
    } else if b == 0x0a {
        seq![0x5cu8, 0x6eu8]
    } else if b == 0x0c {
        seq![0x5cu8, 0x66u8]
    } else if b == 0x0d {
        seq![0x5cu8, 0x72u8]
    } else if b < 0x20 {
        seq![0x5cu8, 0x75u8, 0x30u8, 0x30u8, hex_digit((b / 16) as u8), hex_digit((b % 16) as u8)]
    } else {
        seq![b]
    }
}

/// The lower-case hexadecimal digit for a value below 16.
pub open spec fn hex_digit(n: u8) -> u8 {
    if n < 10 {
        (0x30 + n) as u8
    } else {
        (0x57 + n) as u8
    }
}

/// A byte sequence escaped for use inside a JSON string literal.
pub open spec fn json_escaped(s: Seq<u8>) -> Seq<u8>
    decreases s.len(),
{
    if s.len() == 0 {
        Seq::empty()
    } else {
        escape_byte(s[0]) + json_escaped(s.drop_first())
    }
}

/// Escaping distributes over appending one byte.
pub proof fn lemma_json_escaped_push(s: Seq<u8>, b: u8)
    ensures
        json_escaped(s.push(b)) == json_escaped(s) + escape_byte(b),
    decreases s.len(),
{
    if s.len() == 0 {
        assert(s.push(b)[0] == b);
        assert(s.push(b).drop_first() =~= Seq::<u8>::empty());
        assert(json_escaped(Seq::<u8>::empty()) =~= Seq::<u8>::empty());
        assert(json_escaped(s.push(b)) =~= escape_byte(b));
        assert(json_escaped(s) + escape_byte(b) =~= escape_byte(b));
    } else {
        assert(s.push(b).drop_first() =~= s.drop_first().push(b));
        assert(s.push(b)[0] == s[0]);
        lemma_json_escaped_push(s.drop_first(), b);
        assert(escape_byte(s[0]) + (json_escaped(s.drop_first()) + escape_byte(b)) =~= (escape_byte(
            s[0],
        ) + json_escaped(s.drop_first())) + escape_byte(b));
    }
}

/// The JSON body of one secret update: an object with the four fields
/// `environment`, `secretValue`, `workspaceId` and `secretPath`, each value
/// escaped as a JSON string.
pub open spec fn spec_secret_update_body(
    environment: Seq<u8>,
    new_value: Seq<u8>,
    workspace: Seq<u8>,
    secret_path: Seq<u8>,
) -> Seq<u8> {
    "{\"environment\":\"".spec_bytes() + json_escaped(environment)
        + "\",\"secretValue\":\"".spec_bytes() + json_escaped(new_value)
        + "\",\"workspaceId\":\"".spec_bytes() + json_escaped(workspace)
        + "\",\"secretPath\":\"".spec_bytes() + json_escaped(secret_path)
        + "\"}".spec_bytes()
}

/// The lower-case hexadecimal digit, executably.
fn hex_digit_exec(n: u8) -> (r: u8)
    requires
        n < 16,
    ensures
        r == hex_digit(n),
{
    if n < 10 {
        0x30 + n
    } else {
        0x57 + n
    }
}

/// Append the escape of one byte.
fn push_escaped(out: &mut Vec<u8>, b: u8)
    ensures
        final(out)@ == old(out)@ + escape_byte(b),
{
    if b == 0x22 {
        out.push(0x5c);
        out.push(0x22);
    } else if b == 0x5c {
        out.push(0x5c);
        out.push(0x5c);
    } else if b == 0x08 {
        out.push(0x5c);
        out.push(0x62);
    } else if b == 0x09 {
        out.push(0x5c);
        out.push(0x74);
    } else if b == 0x0a {
        out.push(0x5c);
        out.push(0x6e);
    } else if b == 0x0c {
        out.push(0x5c);
        out.push(0x66);
    } else if b == 0x0d {
        out.push(0x5c);
        out.push(0x72);
    } else if b < 0x20 {
        out.push(0x5c);
        out.push(0x75);
        out.push(0x30);
        out.push(0x30);
        out.push(hex_digit_exec(b / 16));
        out.push(hex_digit_exec(b % 16));
    } else {
        out.push(b);
    }
    proof {
        assert(out@ =~= old(out)@ + escape_byte(b));
    }
}

/// Append a byte slice unchanged.
fn append_bytes(out: &mut Vec<u8>, piece: &[u8])
    ensures
        final(out)@ == old(out)@ + piece@,
{
    let n = piece.len();
    let mut i: usize = 0;
    while i < n
        invariant
            i <= n,
            n == piece@.len(),
            out@ == old(out)@ + piece@.take(i as int),
        decreases n - i,
    {
        out.push(piece[i]);
        proof {
            assert(piece@.take(i + 1 as int) =~= piece@.take(i as int).push(piece@[i as int]));
            assert(out@ =~= old(out)@ + piece@.take(i + 1 as int));
        }
        i += 1;
    }
    proof {
        assert(piece@.take(n as int) =~= piece@);
    }
}

/// Append a byte slice escaped for a JSON string literal.
fn append_escaped(out: &mut Vec<u8>, piece: &[u8])
    ensures
        final(out)@ == old(out)@ + json_escaped(piece@),
{
    let n = piece.len();
    let mut i: usize = 0;
    while i < n
        invariant
            i <= n,
            n == piece@.len(),
            out@ == old(out)@ + json_escaped(piece@.take(i as int)),
        decreases n - i,
    {
        push_escaped(out, piece[i]);
        proof {
            assert(piece@.take(i + 1 as int) =~= piece@.take(i as int).push(piece@[i as int]));
            lemma_json_escaped_push(piece@.take(i as int), piece@[i as int]);
            assert(out@ =~= old(out)@ + json_escaped(piece@.take(i + 1 as int)));
        }
        i += 1;
    }
    proof {
        assert(piece@.take(n as int) =~= piece@);
    }
}

/// Build the JSON body of one secret update.
pub fn secret_update_body(
    environment: &str,
    new_value: &str,
    workspace: &str,
    secret_path: &str,
) -> (r: Vec<u8>)
    ensures
        r@ == spec_secret_update_body(
            environment.spec_bytes(),
            new_value.spec_bytes(),
            workspace.spec_bytes(),
            secret_path.spec_bytes(),
        ),
{
    let mut out: Vec<u8> = Vec::new();
    append_bytes(&mut out, "{\"environment\":\"".as_bytes());
    append_escaped(&mut out, environment.as_bytes());
    append_bytes(&mut out, "\",\"secretValue\":\"".as_bytes());
    append_escaped(&mut out, new_value.as_bytes());
    append_bytes(&mut out, "\",\"workspaceId\":\"".as_bytes());
    append_escaped(&mut out, workspace.as_bytes());
    append_bytes(&mut out, "\",\"secretPath\":\"".as_bytes());
    append_escaped(&mut out, secret_path.as_bytes());
    append_bytes(&mut out, "\"}".as_bytes());
    proof {
        assert(out@ =~= spec_secret_update_body(
            environment.spec_bytes(),
            new_value.spec_bytes(),
            workspace.spec_bytes(),
            secret_path.spec_bytes(),
        ));
    }
    out
}

/// The target URL of one secret update: the store endpoint with the
/// secret's key appended.
pub fn write_url(endpoint: &str, secret_key: &str) -> (r: String)
    ensures
        r@ == endpoint@ + secret_key@,
{
    let s = String::from_str(endpoint);
    s.concat(secret_key)
}

/// The value of the `Authorization` header for one secret update.
pub fn bearer_header(credential: &str) -> (r: String)
    ensures
        r@ == "Bearer "@ + credential@,
{
    let s = String::from_str("Bearer ");
    s.concat(credential)
}

/// The view of an optional string.
pub open spec fn opt_view(o: Option<String>) -> Option<Seq<char>> {
    match o {
        Some(v) => Some(v@),
        None => None,
    }
}

/// What serde_json makes of a secret-store response body: the fields of the
/// confirmation record when the body is a JSON object of the expected
/// shape, nothing otherwise.
pub uninterp spec fn parsed_secret_fields(body: Seq<char>) -> Option<
    (Option<Seq<char>>, u64, Seq<char>, Seq<char>, Seq<char>, Seq<char>, Seq<char>),
>;

/// Relies on serde_json: parsing is a function of the body text alone, and
/// yields the record exactly when the body is a JSON object whose `secret`
/// member carries the expected fields (`_id` optional, `version` a number,
/// the rest strings).
#[verifier::external_body]
fn parse_secret_body(body: &str) -> (r: Option<Secret>)
    ensures
        match r {
            Some(s) => parsed_secret_fields(body@) == Some(
                (
                    opt_view(s.secret.id),
                    s.secret.version,
                    s.secret.workspace@,
                    s.secret.secret_type@,
                    s.secret.secret_key@,
                    s.secret.secret_value@,
                    s.secret.secret_comment@,
                ),
            ),
            None => parsed_secret_fields(body@) is None,
        },
{
    let v: serde_json::Value = serde_json::from_str(body).ok()?;
    let s = v.get("secret")?;
    let text = |k: &str| s.get(k).and_then(|x| x.as_str()).map(|x| x.to_owned());
    Some(Secret {
        secret: SecretItem {
            id: text("_id"),
            version: s.get("version")?.as_u64()?,
            workspace: text("workspace")?,
            secret_type: text("type")?,
            secret_key: text("secretKey")?,
            secret_value: text("secretValue")?,
            secret_comment: text("secretComment")?,
        },
    })
}

/// Interpret the outcome of one secret write. A transport failure and a
/// body that does not parse into a confirmation record both signal `Write`.
pub fn interpret_write_response(outcome: HttpOutcome) -> (r: Result<Secret, RefreshError>)
    ensures
        outcome is TransportFailure ==> (r matches Err(e) && e is Write),
        outcome matches HttpOutcome::Response(b) ==> match r {
            Ok(s) => parsed_secret_fields(b@) == Some(
                (
                    opt_view(s.secret.id),
                    s.secret.version,
                    s.secret.workspace@,
                    s.secret.secret_type@,
                    s.secret.secret_key@,
                    s.secret.secret_value@,
                    s.secret.secret_comment@,
                ),
            ),
            Err(e) => e is Write && parsed_secret_fields(b@) is None,
        },
{
    match outcome {
        HttpOutcome::TransportFailure => Err(RefreshError::Write),
        HttpOutcome::Response(b) => match parse_secret_body(b.as_str()) {
            Some(s) => Ok(s),
            None => Err(RefreshError::Write),
        },
    }
}

} // verus!
