//! Basic authentication.

use hyper::header::{HeaderMap, HeaderValue};
use vstd::prelude::*;

use crate::encoding::encode_standard;
use crate::headers::header_field;
use crate::text::split_at_char;

verus! {

broadcast use vstd::string::group_string_axioms;

/// A user name and a password, joined as they are for the `Basic` scheme.
pub open spec fn joined(username: Seq<char>, password: Seq<char>) -> Seq<char> {
    username + seq![':'] + password
}

/// Whether a user name and a password are small enough to be sent.
pub open spec fn sendable(username: Seq<char>, password: Seq<char>) -> bool {
    crate::encoding::encodable(vstd::utf8::encode_utf8(joined(username, password)).len())
}

/// The header value that presents a user name and a password.
pub open spec fn basic_header(username: Seq<char>, password: Seq<char>) -> Seq<char> {
    "Basic "@ + crate::encoding::base64_standard(
        vstd::utf8::encode_utf8(joined(username, password)),
    )
}

/// The user name and the password that a text is split into make up the text again.
pub proof fn law_join_of_split(text: Seq<char>)
    requires
        crate::text::split_once(text, ':') is Some,
    ensures
        ({
            let (username, password) = crate::text::split_once(text, ':')->0;
            &&& joined(username, password) == text
            &&& !username.contains(':')
        }),
{
    crate::text::lemma_first_index(text, ':');
    let i = crate::text::first_index(text, ':');
    let (username, password) = crate::text::split_once(text, ':')->0;
    assert(joined(username, password) == text);
    assert forall|j: int| 0 <= j < username.len() implies username[j] != ':' by {
        assert(username[j] == text[j]);
    }
}

/// A user name without a colon and a password can be joined and split again.
pub proof fn law_split_of_join(username: Seq<char>, password: Seq<char>)
    requires
        !username.contains(':'),
    ensures
        crate::text::split_once(joined(username, password), ':') == Some((username, password)),
{
    let text = joined(username, password);
    let n = username.len() as int;
    assert forall|j: int| 0 <= j < n implies text[j] != ':' by {
        assert(text[j] == username[j]);
    }
    crate::text::lemma_first_index_unique(text, ':', n);
    assert(text.take(n) == username);
    assert(text.skip(n + 1) == password);
}

/// A user name, which holds no colon, and a password.
pub struct Credentials {
    username: String,
    password: String,
}

impl View for Credentials {
    type V = (Seq<char>, Seq<char>);

    closed spec fn view(&self) -> (Seq<char>, Seq<char>) {
        (self.username@, self.password@)
    }
}

impl Credentials {
    #[verifier::type_invariant]
    spec fn well_formed(&self) -> bool {
        sendable(self.username@, self.password@) && !self.username@.contains(':')
    }

    /// Reads credentials in the form `username:password`, the first colon dividing the two.
    pub fn parse(text: &str) -> (r: Option<Credentials>)
        requires
            crate::encoding::encodable(vstd::utf8::encode_utf8(text@).len()),
        ensures
            match r {
                Some(credentials) => crate::text::split_once(text@, ':') == Some(credentials@),
                None => !text@.contains(':'),
            },
    {
        match split_at_char(text, ':') {
            Some((username, password)) => {
                proof {
                    law_join_of_split(text@);
                }
                Some(Credentials { username, password })
            },
            None => None,
        }
    }

    /// The credentials in the form `username:password`.
    pub fn to_text(&self) -> (r: String)
        ensures
            r@ == joined(self@.0, self@.1),
    {
        join_text(self.username.as_str(), self.password.as_str())
    }
}

/// `username:password`.
fn join_text(username: &str, password: &str) -> (r: String)
    ensures
        r@ == joined(username@, password@),
{
    proof {
        reveal_strlit(":");
    }
    let mut text: String = username.to_owned();
    text.append(":");
    text.append(password);
    assert(":"@ == seq![':']);
    text
}

/// The header value that carries `encoded` for the `Basic` scheme.
pub fn basic_value(encoded: &str) -> (r: String)
    ensures
        r@ == "Basic "@ + encoded@,
{
    let mut value: String = "Basic ".to_owned();
    value.append(encoded);
    value
}

/// The header value that presents a user name and a password.
///
/// It is all visible ASCII, and no other text of the form `username:password` gives the same value.
pub fn basic_auth(username: &str, password: &str) -> (r: String)
    requires
        sendable(username@, password@),
    ensures
        r@ == basic_header(username@, password@),
        r@ == seq!['B', 'a', 's', 'i', 'c', ' '] + crate::encoding::base64_standard(
            vstd::utf8::encode_utf8(username@ + seq![':'] + password@),
        ),
        forall|i: int| 0 <= i < r@.len() ==> ' ' <= #[trigger] r@[i] <= '~',
        forall|u: Seq<char>, p: Seq<char>|
            #[trigger] basic_header(u, p) == r@ ==> joined(u, p) == joined(
                username@,
                password@,
            ),
{
    let text = join_text(username, password);
    let encoded = encode_standard(text.as_str().as_bytes());
    let value = basic_value(encoded.as_str());
    proof {
        reveal_strlit("Basic ");
        law_basic_value(username@, password@);
        crate::encoding::law_base64_alphabet(vstd::utf8::encode_utf8(text@));
        assert forall|i: int| 0 <= i < value@.len() implies ' ' <= #[trigger] value@[i] <= '~' by {
            if i >= 6 {
                assert(value@[i] == encoded@[i - 6]);
            }
        }
        assert forall|u: Seq<char>, p: Seq<char>|
            #[trigger] basic_header(u, p) == value@ implies joined(u, p)
            == joined(username@, password@) by {
            let other = vstd::utf8::encode_utf8(joined(u, p));
            assert(basic_header(u, p).skip(6) == crate::encoding::base64_standard(other));
            assert(value@.skip(6) == encoded@);
            crate::encoding::law_base64_injective(other, vstd::utf8::encode_utf8(text@));
            vstd::utf8::encode_utf8_decode_utf8(joined(u, p));
            vstd::utf8::encode_utf8_decode_utf8(text@);
        }
    }
    value
}

/// Bytes below 128 that encode text are the characters of that text.
proof fn lemma_ascii_bytes(text: Seq<char>)
    requires
        forall|i: int|
            0 <= i < vstd::utf8::encode_utf8(text).len() ==> #[trigger] vstd::utf8::encode_utf8(
                text,
            )[i] < 128,
    ensures
        vstd::utf8::encode_utf8(text).len() == text.len(),
        forall|i: int|
            0 <= i < text.len() ==> vstd::utf8::encode_utf8(text)[i] as char == #[trigger] text[i],
    decreases text.len(),
{
    if text.len() > 0 {
        let bytes = vstd::utf8::encode_utf8(text);
        let rest = text.drop_first();
        let tail = vstd::utf8::encode_utf8(rest);
        vstd::utf8::encode_utf8_first_scalar(text);
        let b = bytes[0];
        assert(b & 0x7f == b) by (bit_vector)
            requires
                b < 128,
        ;
        assert(bytes == vstd::utf8::encode_scalar(text[0] as u32) + tail);
        assert(vstd::utf8::codepoint_width_1(b) == b as u32);
        vstd::utf8::char_u32_cast(text[0], b as u32);
        assert(b as char == text[0]);
        assert(vstd::utf8::encode_scalar(text[0] as u32).len() == 1);
        assert forall|i: int| 0 <= i < tail.len() implies #[trigger] tail[i] < 128 by {
            assert(tail[i] == bytes[i + 1]);
        }
        lemma_ascii_bytes(rest);
        assert forall|i: int| 0 <= i < text.len() implies bytes[i] as char == #[trigger] text[i] by {
            if i > 0 {
                assert(rest[i - 1] == text[i]);
                assert(tail[i - 1] == bytes[i]);
            }
        }
    }
}

/// The encoded form of a text is read back as that text, if it is read as text at all; it is if
/// the text holds nothing but printable ASCII characters.
proof fn lemma_value_text(text: Seq<char>)
    ensures
        crate::headers::value_text(vstd::utf8::encode_utf8(text)) matches Some(read) ==> read
            == text,
        (forall|i: int| 0 <= i < text.len() ==> ' ' <= #[trigger] text[i] <= '~')
            ==> crate::headers::value_text(vstd::utf8::encode_utf8(text)) is Some,
{
    let bytes = vstd::utf8::encode_utf8(text);
    if let Some(read) = crate::headers::value_text(bytes) {
        lemma_ascii_bytes(text);
        assert(read == text);
    }
    if forall|i: int| 0 <= i < text.len() ==> ' ' <= #[trigger] text[i] <= '~' {
        vstd::utf8::is_ascii_chars_encode_utf8(text);
        assert forall|i: int| 0 <= i < bytes.len() implies crate::headers::is_visible(
            #[trigger] bytes[i],
        ) by {
            assert(text[i] as u8 == bytes[i]);
        }
    }
}

/// What becomes of a request where authentication may be asked for.
#[derive(Clone, Copy, Debug, PartialEq, Eq, Structural)]
pub enum AuthOutcome {
    /// The request may pass.
    Granted,
    /// The request presents no credentials.
    Missing,
    /// The request presents credentials that are not the right ones.
    Refused,
}

/// The outcome for a request that presents `presented` where `expected` is asked for.
pub open spec fn outcome(expected: Option<Seq<char>>, presented: Option<Seq<char>>) -> AuthOutcome {
    match (expected, presented) {
        (None, _) => AuthOutcome::Granted,
        (Some(_), None) => AuthOutcome::Missing,
        (Some(expected), Some(presented)) => if presented == expected {
            AuthOutcome::Granted
        } else {
            AuthOutcome::Refused
        },
    }
}

/// The characters of the header value that is asked for, if credentials are configured.
pub open spec fn expected_header(credentials: Option<Credentials>) -> Option<Seq<char>> {
    match credentials {
        Some(credentials) => Some(basic_header(credentials@.0, credentials@.1)),
        None => None,
    }
}

/// The outcome for a request with these headers, of which `name` presents the credentials.
pub open spec fn auth_outcome(
    credentials: Option<Credentials>,
    headers: HeaderMap<HeaderValue>,
    name: Seq<char>,
) -> AuthOutcome {
    outcome(expected_header(credentials), crate::headers::field_text(headers, name))
}

/// Whether `headers` present a user name and a password in the field `name`.
pub open spec fn presents(
    headers: HeaderMap<HeaderValue>,
    name: Seq<char>,
    username: Seq<char>,
    password: Seq<char>,
) -> bool {
    &&& crate::headers::header_fields(headers).contains_key(name)
    &&& crate::headers::header_fields(headers)[name] == vstd::utf8::encode_utf8(
        basic_header(username, password),
    )
}

/// The outcome for a request that presents `presented` where `expected` is asked for.
pub fn check_presented(expected: Option<&str>, presented: Option<&str>) -> (r: AuthOutcome)
    ensures
        r == outcome(crate::text::opt_view(expected), crate::text::opt_view(presented)),
{
    match expected {
        None => AuthOutcome::Granted,
        Some(expected) => match presented {
            None => AuthOutcome::Missing,
            Some(presented) => if presented.to_owned() == expected.to_owned() {
                AuthOutcome::Granted
            } else {
                AuthOutcome::Refused
            },
        },
    }
}

/// Decides on a request by the credentials that its field `name` presents.
///
/// Whoever presents a user name and a password is let through exactly if these are the ones that
/// are configured, and refused otherwise.
pub fn authenticate(
    credentials: &Option<Credentials>,
    headers: &HeaderMap<HeaderValue>,
    name: &str,
) -> (r: AuthOutcome)
    requires
        crate::headers::is_plain_name(name@),
    ensures
        r == auth_outcome(*credentials, *headers, name@),
        *credentials matches Some(c) ==> forall|u: Seq<char>, p: Seq<char>|
            !u.contains(':') && #[trigger] presents(*headers, name@, u, p) ==> r
                == if (u, p) == c@ {
                AuthOutcome::Granted
            } else {
                AuthOutcome::Refused
            },
{
    match credentials {
        None => check_presented(None, None),
        Some(c) => {
            proof {
                use_type_invariant(c);
            }
            let presented = header_field(headers, name);
            let expected = basic_auth(c.username.as_str(), c.password.as_str());
            let r = match &presented {
                Some(presented) => check_presented(Some(expected.as_str()), Some(presented.as_str())),
                None => check_presented(Some(expected.as_str()), None),
            };
            proof {
                reveal_strlit("Basic ");
                assert forall|u: Seq<char>, p: Seq<char>|
                    !u.contains(':') && #[trigger] presents(
                        *headers,
                        name@,
                        u,
                        p,
                    ) implies r == if (u, p) == c@ {
                    AuthOutcome::Granted
                } else {
                    AuthOutcome::Refused
                } by {
                    lemma_value_text(basic_header(u, p));
                    law_split_of_join(u, p);
                    law_split_of_join(c@.0, c@.1);
                }
            }
            r
        },
    }
}

/// The value that presents a user name and a password is the word `Basic`, a space, and the base64
/// form of the two with a colon between them, whatever they are. Nothing limits them but memory.
pub proof fn law_basic_value(username: Seq<char>, password: Seq<char>)
    ensures
        basic_header(username, password) == seq!['B', 'a', 's', 'i', 'c', ' ']
            + crate::encoding::base64_standard(
            vstd::utf8::encode_utf8(username + seq![':'] + password),
        ),
        sendable(username, password) <==> crate::encoding::base64_standard(
            vstd::utf8::encode_utf8(username + seq![':'] + password),
        ).len() <= isize::MAX,
{
    reveal_strlit("Basic ");
    assert("Basic "@ == seq!['B', 'a', 's', 'i', 'c', ' ']);
    crate::encoding::law_encodable(vstd::utf8::encode_utf8(username + seq![':'] + password));
}

/// Where nothing is expected everything passes; otherwise what is presented passes exactly if it is
/// what is expected, and presenting nothing is told from presenting something else.
pub proof fn law_outcome(expected: Seq<char>, presented: Seq<char>, any: Option<Seq<char>>)
    ensures
        outcome(None, any) is Granted,
        outcome(Some(expected), None) is Missing,
        outcome(Some(expected), Some(presented)) is Granted <==> presented == expected,
        outcome(Some(expected), Some(presented)) is Refused <==> presented != expected,
{
}

/// How a request is decided on, from the bytes of its header field. Without configured credentials
/// it passes. With them, a request without the field presents nothing; one whose field holds the
/// word `Basic`, a space, and the base64 form of the user name, a colon and the password passes;
/// and one whose field holds anything else is refused.
pub proof fn law_only_the_right_value_passes(
    credentials: Option<Credentials>,
    headers: HeaderMap<HeaderValue>,
    name: Seq<char>,
)
    ensures
        ({
            let fields = crate::headers::header_fields(headers);
            let decided = auth_outcome(credentials, headers, name);
            match credentials {
                None => decided is Granted,
                Some(c) => {
                    let value = seq!['B', 'a', 's', 'i', 'c', ' ']
                        + crate::encoding::base64_standard(
                        vstd::utf8::encode_utf8(c@.0 + seq![':'] + c@.1),
                    );
                    if !fields.contains_key(name) {
                        decided is Missing
                    } else if fields[name] == vstd::utf8::encode_utf8(value) {
                        decided is Granted
                    } else {
                        decided is Refused
                    }
                },
            }
        }),
{
    if let Some(c) = credentials {
        let value = basic_header(c@.0, c@.1);
        law_basic_value(c@.0, c@.1);
        let encoded = crate::encoding::base64_standard(
            vstd::utf8::encode_utf8(c@.0 + seq![':'] + c@.1),
        );
        crate::encoding::law_base64_alphabet(
            vstd::utf8::encode_utf8(c@.0 + seq![':'] + c@.1),
        );
        assert forall|i: int| 0 <= i < value.len() implies ' ' <= #[trigger] value[i] <= '~' by {
            if i >= 6 {
                assert(value[i] == encoded[i - 6]);
            }
        }
        lemma_value_text(value);
        if crate::headers::header_fields(headers).contains_key(name) {
            let bytes = crate::headers::header_fields(headers)[name];
            if crate::headers::text_or_empty(bytes) == value {
                vstd::utf8::is_ascii_chars_encode_utf8(value);
                let sent = vstd::utf8::encode_utf8(value);
                assert forall|i: int| 0 <= i < bytes.len() implies bytes[i] == sent[i] by {
                    assert(crate::headers::is_visible(bytes[i]));
                    assert(value[i] == bytes[i] as char);
                }
                assert(bytes == sent);
            }
        }
    }
}

} // verus!
