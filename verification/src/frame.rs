//! Filler-frame generation: every frame a tarpitted peer receives is a
//! fixed number of pseudo-random alphanumeric characters followed by
//! CRLF. The characters come from `fastrand`; everything proved here
//! holds whatever that generator returns.

use vstd::prelude::*;

verus! {

/// Whether the code point `n` is an ASCII alphanumeric character:
/// `0`-`9`, `A`-`Z` or `a`-`z`.
pub open spec fn is_alnum_code(n: int) -> bool {
    (48 <= n <= 57) || (65 <= n <= 90) || (97 <= n <= 122)
}

pub open spec fn is_alnum_byte(b: u8) -> bool {
    is_alnum_code(b as int)
}

pub open spec fn is_alnum_char(c: char) -> bool {
    is_alnum_code(c as int)
}

/// A well-formed frame of payload length `len`, as bytes: exactly
/// `len` alphanumeric bytes followed by CR and LF.
pub open spec fn frame_wf(s: Seq<u8>, len: nat) -> bool {
    &&& s.len() == len + 2
    &&& forall|i: int| 0 <= i < len ==> is_alnum_byte(s[i])
    &&& s[len as int] == 13u8
    &&& s[len as int + 1] == 10u8
}

/// A well-formed frame of payload length `len`, as characters.
pub open spec fn frame_chars_wf(s: Seq<char>, len: nat) -> bool {
    &&& s.len() == len + 2
    &&& forall|i: int| 0 <= i < len ==> is_alnum_char(s[i])
    &&& s[len as int] == '\r'
    &&& s[len as int + 1] == '\n'
}

/// Relies on `fastrand::alphanumeric`: it draws one character of
/// `[0-9A-Za-z]` from the thread-local generator. All those characters
/// are ASCII, so the cast to a byte is exact. Nothing more is assumed:
/// the result is random, and every contract downstream holds for any
/// alphanumeric byte coming back.
#[verifier::external_body]
fn random_alphanumeric_byte() -> (b: u8)
    ensures
        is_alnum_byte(b),
{
    fastrand::alphanumeric() as u8
}

/// Relies on `String::from_utf8`: bytes below 128 are valid UTF-8 and
/// decode to exactly one character per byte, with the same code point.
#[verifier::external_body]
fn ascii_to_string(bytes: Vec<u8>) -> (s: String)
    requires
        forall|i: int| 0 <= i < bytes@.len() ==> bytes@[i] < 128,
    ensures
        s@.len() == bytes@.len(),
        forall|i: int| 0 <= i < bytes@.len() ==> s@[i] as int == bytes@[i] as int,
{
    match String::from_utf8(bytes) {
        Ok(s) => s,
        Err(_) => String::new(),
    }
}

/// Clears `buf` and fills it in place with one frame: `length`
/// pseudo-random alphanumeric bytes and the CRLF terminator. The
/// buffer is reused across frames, so a session allocates no per-line
/// storage once the buffer has grown to `length + 2` bytes.
pub fn fill_frame(buf: &mut Vec<u8>, length: usize)
    requires
        length + 2 <= usize::MAX,
    ensures
        frame_wf(final(buf)@, length as nat),
{
    buf.clear();
    let mut i: usize = 0;
    while i < length
        invariant
            0 <= i <= length,
            buf@.len() == i,
            forall|j: int| 0 <= j < i ==> is_alnum_byte(buf@[j]),
        decreases length - i,
    {
        buf.push(random_alphanumeric_byte());
        i += 1;
    }
    buf.push(13);
    buf.push(10);
}

/// Builds one frame as a `String`: `length` pseudo-random alphanumeric
/// characters followed by `\r\n`.
pub fn generate_random_alphanumeric(length: usize) -> (line: String)
    requires
        length + 2 <= usize::MAX,
    ensures
        frame_chars_wf(line@, length as nat),
{
    let mut buf: Vec<u8> = Vec::new();
    fill_frame(&mut buf, length);
    let line = ascii_to_string(buf);
    proof {
        assert(line@[length as int] as int == 13);
        assert(line@[length as int + 1] as int == 10);
    }
    line
}

} // verus!
