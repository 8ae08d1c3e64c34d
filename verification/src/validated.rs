//! Usernames and message bodies: the rules, and types that cannot hold a value
//! that breaks them.

use std::sync::Arc;

use vstd::prelude::*;
use vstd::utf8;

use crate::limits::{MAX_BODY_BYTES, MAX_USERNAME_BYTES, MIN_USERNAME_BYTES};
use crate::text;

verus! {

/// Why a username or a message body was refused.
#[derive(Debug, Clone, Copy, PartialEq, Eq, Structural)]
pub enum ValidationError {
    /// Username string was empty.
    UsernameEmpty,
    /// Username exceeded the maximum.
    UsernameTooLong {
        /// Length of the offending string, in bytes.
        actual: usize,
        /// The maximum ([`MAX_USERNAME_BYTES`]).
        max: usize,
    },
    /// Username contained a byte outside the allowed set.
    UsernameInvalidByte,
    /// Body string was empty.
    BodyEmpty,
    /// Body exceeded the maximum.
    BodyTooLong {
        /// Length of the offending body, in bytes.
        actual: usize,
        /// The maximum ([`MAX_BODY_BYTES`]).
        max: usize,
    },
}

impl ValidationError {
    /// The text of the error.
    pub open spec fn text(self) -> Seq<char> {
        match self {
            ValidationError::UsernameEmpty => "username is empty (must be 1..=32 bytes)"@,
            ValidationError::UsernameTooLong { actual, max } => "username is "@ + text::decimal(
                actual as nat,
            ) + " bytes; max is "@ + text::decimal(max as nat),
            ValidationError::UsernameInvalidByte =>
                "username contains an invalid byte (allowed: ASCII alnum, '_', '-')"@,
            ValidationError::BodyEmpty => "body is empty"@,
            ValidationError::BodyTooLong { actual, max } => "body is "@ + text::decimal(
                actual as nat,
            ) + " bytes; max is "@ + text::decimal(max as nat),
        }
    }

    /// The human-readable description of the error, as it is sent to a client.
    pub fn message(&self) -> (r: String)
        ensures
            r@ == self.text(),
    {
        match *self {
            ValidationError::UsernameEmpty => "username is empty (must be 1..=32 bytes)".to_owned(),
            ValidationError::UsernameTooLong { actual, max } => {
                let mut out = "username is ".to_owned();
                text::push_decimal(&mut out, actual as u64);
                out.append(" bytes; max is ");
                text::push_decimal(&mut out, max as u64);
                out
            },
            ValidationError::UsernameInvalidByte =>
                "username contains an invalid byte (allowed: ASCII alnum, '_', '-')".to_owned(),
            ValidationError::BodyEmpty => "body is empty".to_owned(),
            ValidationError::BodyTooLong { actual, max } => {
                let mut out = "body is ".to_owned();
                text::push_decimal(&mut out, actual as u64);
                out.append(" bytes; max is ");
                text::push_decimal(&mut out, max as u64);
                out
            },
        }
    }
}

/// The description of an error is short.
pub proof fn lemma_error_text_len(e: ValidationError)
    ensures
        e.text().len() <= 100,
{
    reveal_strlit("username is empty (must be 1..=32 bytes)");
    reveal_strlit("username is ");
    reveal_strlit(" bytes; max is ");
    reveal_strlit("username contains an invalid byte (allowed: ASCII alnum, '_', '-')");
    reveal_strlit("body is empty");
    reveal_strlit("body is ");
    match e {
        ValidationError::UsernameTooLong { actual, max } => {
            text::lemma_decimal_len(actual as nat);
            text::lemma_decimal_len(max as nat);
        },
        ValidationError::BodyTooLong { actual, max } => {
            text::lemma_decimal_len(actual as nat);
            text::lemma_decimal_len(max as nat);
        },
        _ => {},
    }
}

// ---------------------------------------------------------------------------
// The rules
// ---------------------------------------------------------------------------

/// A byte that a username may hold: an ASCII letter or digit, `_` or `-`.
pub open spec fn username_byte(b: u8) -> bool {
    ||| 'a' as u8 <= b <= 'z' as u8
    ||| 'A' as u8 <= b <= 'Z' as u8
    ||| '0' as u8 <= b <= '9' as u8
    ||| b == '_' as u8
    ||| b == '-' as u8
}

/// What the rules say of `s` as a username: the first rule that it breaks.
pub open spec fn check_username(s: Seq<char>) -> Result<(), ValidationError> {
    let bytes = utf8::encode_utf8(s);
    if bytes.len() < MIN_USERNAME_BYTES {
        Err(ValidationError::UsernameEmpty)
    } else if bytes.len() > MAX_USERNAME_BYTES {
        Err(
            ValidationError::UsernameTooLong {
                actual: bytes.len() as usize,
                max: MAX_USERNAME_BYTES,
            },
        )
    } else if exists|i: int| 0 <= i < bytes.len() && !username_byte(#[trigger] bytes[i]) {
        Err(ValidationError::UsernameInvalidByte)
    } else {
        Ok(())
    }
}

/// What the rules say of `s` as a message body.
pub open spec fn check_body(s: Seq<char>) -> Result<(), ValidationError> {
    let bytes = utf8::encode_utf8(s);
    if bytes.len() == 0 {
        Err(ValidationError::BodyEmpty)
    } else if bytes.len() > MAX_BODY_BYTES {
        Err(ValidationError::BodyTooLong { actual: bytes.len() as usize, max: MAX_BODY_BYTES })
    } else {
        Ok(())
    }
}

/// `s` is a legal username.
pub open spec fn valid_username(s: Seq<char>) -> bool {
    check_username(s) is Ok
}

/// `s` is a legal message body.
pub open spec fn valid_body(s: Seq<char>) -> bool {
    check_body(s) is Ok
}

/// A legal username is ASCII: it has as many characters as bytes.
pub proof fn law_username_is_ascii(s: Seq<char>)
    requires
        valid_username(s),
    ensures
        utf8::is_ascii_chars(s),
        MIN_USERNAME_BYTES <= s.len() <= MAX_USERNAME_BYTES,
{
    lemma_ascii_bytes(s);
    utf8::is_ascii_chars_encode_utf8(s);
}

/// A character that takes one byte is ASCII.
proof fn lemma_width_1_is_ascii(c: char)
    ensures
        utf8::has_width_1_encoding(c as u32) ==> '\0' <= c <= '\u{7f}',
{
}

/// Text whose bytes are all ASCII is ASCII.
proof fn lemma_ascii_bytes(s: Seq<char>)
    requires
        forall|i: int|
            0 <= i < utf8::encode_utf8(s).len() ==> #[trigger] utf8::encode_utf8(s)[i] < 128,
    ensures
        utf8::is_ascii_chars(s),
    decreases s.len(),
{
    if s.len() > 0 {
        utf8::char_is_scalar(s[0]);
        let c = s[0] as u32;
        let head = utf8::encode_scalar(c);
        let tail = utf8::encode_utf8(s.drop_first());
        let bytes = utf8::encode_utf8(s);
        assert(bytes =~= head + tail);
        assert(head[0] == bytes[0]);
        assert(utf8::leading_byte_width_2(c) >= 128) by (bit_vector);
        assert(utf8::leading_byte_width_3(c) >= 128) by (bit_vector);
        assert(utf8::leading_byte_width_4(c) >= 128) by (bit_vector);
        lemma_width_1_is_ascii(s[0]);
        assert forall|i: int| 0 <= i < tail.len() implies #[trigger] tail[i] < 128 by {
            assert(tail[i] == bytes[head.len() + i]);
        }
        lemma_ascii_bytes(s.drop_first());
        assert forall|i: int| 0 <= i < s.len() implies '\0' <= #[trigger] s[i] <= '\u{7f}' by {
            if i > 0 {
                assert(s[i] == s.drop_first()[i - 1]);
            }
        }
    }
}

/// Validates a username string against the protocol's rules.
///
/// Allowed: ASCII alphanumeric, `_`, `-`, length in `1..=32`.
pub fn validate_username_bytes(s: &str) -> (r: Result<(), ValidationError>)
    ensures
        r == check_username(s@),
{
    let bytes = s.as_bytes();
    let n: usize = bytes.len();
    if n < MIN_USERNAME_BYTES {
        return Err(ValidationError::UsernameEmpty);
    }
    if n > MAX_USERNAME_BYTES {
        return Err(ValidationError::UsernameTooLong { actual: n, max: MAX_USERNAME_BYTES });
    }
    for i in 0..n
        invariant
            n == bytes@.len(),
            MIN_USERNAME_BYTES <= n <= MAX_USERNAME_BYTES,
            bytes@ == utf8::encode_utf8(s@),
            forall|j: int| 0 <= j < i ==> username_byte(#[trigger] bytes@[j]),
    {
        let b: u8 = bytes[i];
        let letter = ('a' as u8 <= b && b <= 'z' as u8) || ('A' as u8 <= b && b <= 'Z' as u8);
        let digit = '0' as u8 <= b && b <= '9' as u8;
        let allowed = letter || digit || b == '_' as u8 || b == '-' as u8;
        if !allowed {
            assert(!username_byte(bytes@[i as int]));
            return Err(ValidationError::UsernameInvalidByte);
        }
    }
    Ok(())
}

/// Validates a message body against the protocol's rules: not empty, and at
/// most [`MAX_BODY_BYTES`] bytes.
pub fn validate_body_bytes(s: &str) -> (r: Result<(), ValidationError>)
    ensures
        r == check_body(s@),
{
    let n: usize = s.as_bytes().len();
    if n == 0 {
        return Err(ValidationError::BodyEmpty);
    }
    if n > MAX_BODY_BYTES {
        return Err(ValidationError::BodyTooLong { actual: n, max: MAX_BODY_BYTES });
    }
    Ok(())
}

// ---------------------------------------------------------------------------
// Validated types
// ---------------------------------------------------------------------------

/// `Arc::<str>::from` of a string slice: a shared copy of the same text.
#[verifier::external_body]
pub(crate) fn share_text(s: &str) -> (r: Arc<str>)
    ensures
        r@ == s@,
{
    Arc::from(s)
}

/// A validated chat username.
///
/// Backed by an `Arc<str>`, so cloning is a reference count bump. Every value
/// of this type is a legal username.
#[derive(Debug, PartialEq, Eq, Hash)]
pub struct UserName(Arc<str>);

impl Clone for UserName {
    fn clone(&self) -> (r: UserName)
        ensures
            r@ == self@,
    {
        proof {
            use_type_invariant(self);
        }
        UserName(self.0.clone())
    }
}

impl View for UserName {
    type V = Seq<char>;

    closed spec fn view(&self) -> Seq<char> {
        self.0@
    }
}

impl UserName {
    #[verifier::type_invariant]
    spec fn holds_legal_name(self) -> bool {
        valid_username(self@)
    }

    /// Validates and constructs.
    pub fn new(input: &str) -> (r: Result<UserName, ValidationError>)
        ensures
            named(input@, r),
    {
        match validate_username_bytes(input) {
            Ok(_) => Ok(UserName(share_text(input))),
            Err(e) => Err(e),
        }
    }

    /// Constructs from shared text without copying it; the text is validated
    /// as in [`UserName::new`].
    pub fn from_arc(arc: Arc<str>) -> (r: Result<UserName, ValidationError>)
        ensures
            named(arc@, r),
    {
        match validate_username_bytes(&arc) {
            Ok(_) => Ok(UserName(arc)),
            Err(e) => Err(e),
        }
    }

    /// Borrows as `&str`.
    pub fn as_str(&self) -> (r: &str)
        ensures
            r@ == self@,
            valid_username(r@),
    {
        proof {
            use_type_invariant(self);
        }
        &self.0
    }

    /// Borrows as `&Arc<str>`.
    pub fn as_arc(&self) -> (r: &Arc<str>)
        ensures
            r@ == self@,
            valid_username(r@),
    {
        proof {
            use_type_invariant(self);
        }
        &self.0
    }

    /// Consumes into the inner `Arc<str>`.
    pub fn into_arc(self) -> (r: Arc<str>)
        ensures
            r@ == self@,
            valid_username(r@),
    {
        proof {
            use_type_invariant(&self);
        }
        self.0
    }
}

/// What constructing a username from the text `s` gives.
pub open spec fn named(s: Seq<char>, r: Result<UserName, ValidationError>) -> bool {
    match r {
        Ok(u) => check_username(s) is Ok && u@ == s,
        Err(e) => check_username(s) == Err::<(), _>(e),
    }
}

/// It makes no difference whether a username is constructed from shared text
/// or from a copy: the same texts are refused, for the same reason, and the
/// same username comes out.
pub proof fn law_same_text_same_username(
    s: Seq<char>,
    one: Result<UserName, ValidationError>,
    other: Result<UserName, ValidationError>,
)
    requires
        named(s, one),
        named(s, other),
    ensures
        one is Ok <==> valid_username(s),
        match (one, other) {
            (Ok(a), Ok(b)) => a@ == b@,
            (Err(e), Err(f)) => e == f,
            _ => false,
        },
{
}

/// A username that is taken apart and constructed again is the same username.
pub proof fn law_username_survives_its_text(
    s: Seq<char>,
    first: Result<UserName, ValidationError>,
    again: Result<UserName, ValidationError>,
)
    requires
        named(s, first),
        first is Ok,
        named(first->Ok_0@, again),
    ensures
        again is Ok,
        again->Ok_0@ == first->Ok_0@,
{
}

/// A validated chat message body. Every value of this type is a legal body.
#[derive(Debug, PartialEq, Eq, Hash)]
pub struct MessageBody(Arc<str>);

impl Clone for MessageBody {
    fn clone(&self) -> (r: MessageBody)
        ensures
            r@ == self@,
    {
        proof {
            use_type_invariant(self);
        }
        MessageBody(self.0.clone())
    }
}

impl View for MessageBody {
    type V = Seq<char>;

    closed spec fn view(&self) -> Seq<char> {
        self.0@
    }
}

impl MessageBody {
    #[verifier::type_invariant]
    spec fn holds_legal_body(self) -> bool {
        valid_body(self@)
    }

    /// Validates and constructs.
    pub fn new(input: &str) -> (r: Result<MessageBody, ValidationError>)
        ensures
            match r {
                Ok(m) => check_body(input@) is Ok && m@ == input@,
                Err(e) => check_body(input@) == Err::<(), _>(e),
            },
    {
        match validate_body_bytes(input) {
            Ok(_) => Ok(MessageBody(share_text(input))),
            Err(e) => Err(e),
        }
    }

    /// Borrows as `&str`.
    pub fn as_str(&self) -> (r: &str)
        ensures
            r@ == self@,
            valid_body(r@),
    {
        proof {
            use_type_invariant(self);
        }
        &self.0
    }

    /// Consumes into the inner `Arc<str>`.
    pub fn into_arc(self) -> (r: Arc<str>)
        ensures
            r@ == self@,
            valid_body(r@),
    {
        proof {
            use_type_invariant(&self);
        }
        self.0
    }
}

// ---------------------------------------------------------------------------
// What the rules allow
// ---------------------------------------------------------------------------

/// A character that a username may hold.
pub open spec fn username_char(c: char) -> bool {
    ||| 'a' <= c <= 'z'
    ||| 'A' <= c <= 'Z'
    ||| '0' <= c <= '9'
    ||| c == '_'
    ||| c == '-'
}

/// A username is legal if and only if it has between one and 32 characters, and
/// each is an ASCII letter or digit, `_` or `-`. It is refused as empty where
/// it is empty, as too long, with its length, where it takes more than 32
/// bytes, and for its characters otherwise.
pub proof fn law_username_rules(s: Seq<char>)
    ensures
        valid_username(s) <==> {
            &&& 1 <= s.len() <= 32
            &&& forall|i: int| 0 <= i < s.len() ==> username_char(#[trigger] s[i])
        },
        check_username(s) == Err::<(), _>(ValidationError::UsernameEmpty) <==> s.len() == 0,
        utf8::encode_utf8(s).len() > 32 <==> (check_username(s) matches Err(e)
            && e is UsernameTooLong),
        check_username(s) matches Err(ValidationError::UsernameTooLong { actual, max }) ==> {
            &&& actual == utf8::encode_utf8(s).len() as usize
            &&& max == 32
        },
        check_username(s) matches Err(e) ==> !(e is BodyEmpty) && !(e is BodyTooLong),
{
    let bytes = utf8::encode_utf8(s);
    lemma_empty_text(s);
    if valid_username(s) {
        law_username_is_ascii(s);
        utf8::is_ascii_chars_encode_utf8(s);
        assert forall|i: int| 0 <= i < s.len() implies username_char(#[trigger] s[i]) by {
            assert(username_byte(bytes[i]));
            lemma_ascii_char_is_its_byte(s[i]);
        }
    }
    if 1 <= s.len() <= 32 && forall|i: int|
        0 <= i < s.len() ==> username_char(#[trigger] s[i]) {
        assert(utf8::is_ascii_chars(s));
        utf8::is_ascii_chars_encode_utf8(s);
        assert forall|i: int| 0 <= i < bytes.len() implies username_byte(#[trigger] bytes[i]) by {
            assert(username_char(s[i]));
            lemma_ascii_char_is_its_byte(s[i]);
        }
    }
}

/// A message body is legal if and only if it is not empty and takes at most
/// 4096 bytes. It is refused as empty where it is empty, and otherwise as too
/// long, with its length.
pub proof fn law_body_rules(s: Seq<char>)
    ensures
        valid_body(s) <==> s.len() > 0 && utf8::encode_utf8(s).len() <= 4096,
        check_body(s) == Err::<(), _>(ValidationError::BodyEmpty) <==> s.len() == 0,
        utf8::encode_utf8(s).len() > 4096 ==> check_body(s) == Err::<(), _>(
            ValidationError::BodyTooLong {
                actual: utf8::encode_utf8(s).len() as usize,
                max: 4096,
            },
        ),
{
    lemma_empty_text(s);
}

/// Text has no bytes if and only if it has no characters.
proof fn lemma_empty_text(s: Seq<char>)
    ensures
        utf8::encode_utf8(s).len() == 0 <==> s.len() == 0,
{
    if s.len() > 0 {
        utf8::char_is_scalar(s[0]);
        assert(utf8::encode_utf8(s) =~= utf8::encode_scalar(s[0] as u32) + utf8::encode_utf8(
            s.drop_first(),
        ));
    }
}

/// An ASCII character and its byte are the same number.
proof fn lemma_ascii_char_is_its_byte(c: char)
    ensures
        c <= '\u{7f}' ==> c as u8 as int == c as int,
{
}

/// What a client is told about text that breaks the rules names the length of
/// the text, where that is what is wrong, and the limit.
pub proof fn law_error_texts(actual: usize, max: usize)
    ensures
        ValidationError::UsernameEmpty.text() == "username is empty (must be 1..=32 bytes)"@,
        ValidationError::UsernameInvalidByte.text()
            == "username contains an invalid byte (allowed: ASCII alnum, '_', '-')"@,
        ValidationError::BodyEmpty.text() == "body is empty"@,
        (ValidationError::UsernameTooLong { actual, max }).text() == "username is "@ + text::decimal(
            actual as nat,
        ) + " bytes; max is "@ + text::decimal(max as nat),
        (ValidationError::BodyTooLong { actual, max }).text() == "body is "@ + text::decimal(
            actual as nat,
        ) + " bytes; max is "@ + text::decimal(max as nat),
{
}

/// A username is constructed from a text if and only if the text is legal, and
/// is then exactly that text; otherwise the rule that the text breaks is
/// reported.
pub proof fn law_username_is_its_text(s: Seq<char>, r: Result<UserName, ValidationError>)
    requires
        named(s, r),
    ensures
        r is Ok <==> {
            &&& 1 <= s.len() <= 32
            &&& forall|i: int| 0 <= i < s.len() ==> username_char(#[trigger] s[i])
        },
        r matches Ok(name) ==> name@ == s,
        r matches Err(e) ==> check_username(s) == Err::<(), _>(e),
{
    law_username_rules(s);
}

} // verus!
