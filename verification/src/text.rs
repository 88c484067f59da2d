//! Fixed-width ASCII text, padded with spaces on the right.

use fuels::types::SizedAsciiString;
use vstd::prelude::*;
use vstd::string::StringExecFns;
use vstd::utf8::{encode_utf8, is_ascii_chars, is_ascii_chars_encode_utf8};

verus! {

/// Why a text cannot be padded to a given width.
#[derive(Clone, Copy, Debug, PartialEq, Eq, Structural)]
pub enum TextError {
    /// The text takes more bytes than the width allows.
    TooLong,
    /// The text holds a character outside ASCII.
    NotAscii,
}

/// A run of `count` spaces.
pub open spec fn spaces(count: nat) -> Seq<char> {
    Seq::new(count, |i: int| ' ')
}

/// The text, followed by as many spaces as it takes to fill `width`.
pub open spec fn padded(text: Seq<char>, width: nat) -> Seq<char> {
    text + spaces((width - text.len()) as nat)
}

/// The number of bytes that the text takes as UTF-8.
pub open spec fn byte_len(text: Seq<char>) -> nat {
    encode_utf8(text).len()
}

/// What padding a text to a width gives: the padded text, or the reason why
/// there is none.
pub open spec fn pad_spec(text: Seq<char>, width: nat) -> Result<Seq<char>, TextError> {
    if byte_len(text) > width {
        Err(TextError::TooLong)
    } else if !is_ascii_chars(text) {
        Err(TextError::NotAscii)
    } else {
        Ok(padded(text, width))
    }
}

/// A text can be padded to a width exactly when it is ASCII and no longer
/// than the width; the result then has exactly that width and is ASCII.
pub proof fn lemma_pad_spec(text: Seq<char>, width: nat)
    ensures
        pad_spec(text, width) is Ok <==> is_ascii_chars(text) && text.len() <= width,
        pad_spec(text, width) matches Ok(p) ==> p.len() == width && is_ascii_chars(p)
            && p.subrange(0, text.len() as int) == text,
{
    if is_ascii_chars(text) {
        is_ascii_chars_encode_utf8(text);
        if text.len() <= width {
            let p = padded(text, width);
            assert(p.subrange(0, text.len() as int) =~= text);
        }
    }
}

/// The bytes of two texts in a row are the bytes of the first, then those of
/// the second.
proof fn lemma_encode_concat(a: Seq<char>, b: Seq<char>)
    ensures
        encode_utf8(a + b) == encode_utf8(a) + encode_utf8(b),
    decreases a.len(),
{
    if a.len() == 0 {
        assert(a + b =~= b);
        assert(encode_utf8(a) + encode_utf8(b) =~= encode_utf8(b));
    } else {
        lemma_encode_concat(a.drop_first(), b);
        assert((a + b).drop_first() =~= a.drop_first() + b);
        assert((a + b)[0] == a[0]);
        assert(encode_utf8(a + b) =~= encode_utf8(a) + encode_utf8(b));
    }
}

/// Spaces at the end add one byte each and leave ASCII text ASCII.
proof fn lemma_trailing_spaces(text: Seq<char>, count: nat)
    ensures
        byte_len(text + spaces(count)) == byte_len(text) + count,
        is_ascii_chars(text + spaces(count)) <==> is_ascii_chars(text),
{
    lemma_encode_concat(text, spaces(count));
    is_ascii_chars_encode_utf8(spaces(count));
    let whole = text + spaces(count);
    if is_ascii_chars(whole) {
        assert forall|i: int| 0 <= i < text.len() implies '\0' <= #[trigger] text[i]
            <= '\u{7f}' by {
            assert(whole[i] == text[i]);
        }
    }
}

/// Has the `fuels` crate build a `SizedAsciiString<N>` from `data` with
/// `SizedAsciiString::new`, and takes the text back out of it with
/// `String::from`. That constructor accepts a string exactly when it is ASCII
/// throughout and takes `N` bytes, and keeps the string as it was given.
#[verifier::external_body]
fn sized_ascii<const N: usize>(data: String) -> (kept: Option<String>)
    ensures
        match kept {
            Some(text) => text@ == data@ && is_ascii_chars(data@) && encode_utf8(data@).len() == N,
            None => !is_ascii_chars(data@) || encode_utf8(data@).len() != N,
        },
{
    match SizedAsciiString::<N>::new(data) {
        Ok(sized) => Some(String::from(sized)),
        Err(_) => None,
    }
}

/// ASCII text of exactly `N` characters.
#[derive(Debug, PartialEq, Eq)]
pub struct PaddedAscii<const N: usize> {
    text: String,
}

impl<const N: usize> View for PaddedAscii<N> {
    type V = Seq<char>;

    closed spec fn view(&self) -> Seq<char> {
        self.text@
    }
}

impl<const N: usize> PaddedAscii<N> {
    #[verifier::type_invariant]
    spec fn well_formed(self) -> bool {
        is_ascii_chars(self.text@) && self.text@.len() == N
    }

    /// Pads `text` with spaces on the right to exactly `N` characters.
    /// A text of more than `N` bytes is `TooLong`; a shorter one that is not
    /// ASCII throughout is `NotAscii`.
    pub fn pad(text: &str) -> (r: Result<PaddedAscii<N>, TextError>)
        ensures
            match r {
                Ok(p) => pad_spec(text@, N as nat) == Ok::<Seq<char>, TextError>(p@),
                Err(e) => pad_spec(text@, N as nat) == Err::<Seq<char>, TextError>(e),
            },
    {
        let len = text.as_bytes().len();
        if len > N {
            return Err(TextError::TooLong);
        }
        let mut data = text.to_owned();
        let mut filled = len;
        proof {
            assert(text@ + spaces(0) =~= text@);
        }
        while filled < N
            invariant
                len <= filled <= N,
                data@ == text@ + spaces((filled - len) as nat),
            decreases N - filled,
        {
            proof {
                reveal_strlit(" ");
                assert(text@ + spaces((filled - len) as nat) + " "@ =~= text@ + spaces(
                    (filled + 1 - len) as nat,
                ));
            }
            data.append(" ");
            filled = filled + 1;
        }
        proof {
            lemma_trailing_spaces(text@, (N - len) as nat);
            if is_ascii_chars(text@) {
                is_ascii_chars_encode_utf8(text@);
            }
        }
        match sized_ascii::<N>(data) {
            Some(kept) => Ok(PaddedAscii { text: kept }),
            None => Err(TextError::NotAscii),
        }
    }

    /// The text, `N` ASCII characters long.
    pub fn as_str(&self) -> (r: &str)
        ensures
            r@ == self@,
            r@.len() == N,
            is_ascii_chars(r@),
    {
        proof {
            use_type_invariant(self);
        }
        self.text.as_str()
    }
}

impl<const N: usize> Clone for PaddedAscii<N> {
    fn clone(&self) -> (r: Self)
        ensures
            r == *self,
    {
        proof {
            use_type_invariant(self);
        }
        PaddedAscii { text: self.text.clone() }
    }
}

} // verus!
