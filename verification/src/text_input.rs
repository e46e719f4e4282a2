//! A line of text with a cursor, as the omnibar edits it.
//!
//! The text is a `String` and the cursor a byte offset into it, always on a
//! character boundary. What the operations do is stated over the characters
//! before and after the cursor.

use vstd::prelude::*;
use vstd::string::*;
use vstd::utf8::*;

verus! {

/// The state of a text input.
pub struct TextInputState {
    pub text: String,
    /// Byte offset of the cursor in `text`.
    pub cursor: usize,
    pub placeholder: String,
    pub focused: bool,
}

/// Encoding a run of characters is encoding its two halves one after the
/// other.
pub proof fn lemma_encode_concat(a: Seq<char>, b: Seq<char>)
    ensures
        encode_utf8(a + b) == encode_utf8(a) + encode_utf8(b),
    decreases a.len(),
{
    if a.len() == 0 {
        assert(a + b =~= b);
        assert(encode_utf8(a) + encode_utf8(b) =~= encode_utf8(b));
    } else {
        assert((a + b).drop_first() =~= a.drop_first() + b);
        lemma_encode_concat(a.drop_first(), b);
        assert(encode_utf8(a + b) =~= encode_utf8(a) + encode_utf8(b));
    }
}

/// A single character encodes to the bytes of its scalar value.
pub proof fn lemma_encode_one(ch: char)
    ensures
        encode_utf8(seq![ch]) == encode_scalar(ch as u32),
{
    let one = seq![ch];
    assert(one.drop_first() =~= Seq::<char>::empty());
    assert(encode_utf8(one.drop_first()) =~= Seq::<u8>::empty());
    assert(encode_utf8(one) =~= encode_scalar(one[0] as u32) + encode_utf8(one.drop_first()));
    assert(encode_utf8(one) =~= encode_scalar(ch as u32));
}

/// In the encoding of `a` followed by `b`, the offset behind `a` is a
/// character boundary, the bytes before it are `a` and the bytes behind it
/// are `b`.
pub proof fn lemma_boundary_behind_prefix(a: Seq<char>, b: Seq<char>)
    ensures
        ({
            let bytes = encode_utf8(a + b);
            let at = encode_utf8(a).len() as int;
            &&& at <= bytes.len()
            &&& is_char_boundary(bytes, at)
            &&& bytes.subrange(0, at) == encode_utf8(a)
            &&& bytes.subrange(at, bytes.len() as int) == encode_utf8(b)
            &&& decode_utf8(bytes.subrange(0, at)) == a
            &&& decode_utf8(bytes.subrange(at, bytes.len() as int)) == b
        }),
    decreases a.len(),
{
    let bytes = encode_utf8(a + b);
    let at = encode_utf8(a).len() as int;
    lemma_encode_concat(a, b);
    assert(bytes.subrange(0, at) =~= encode_utf8(a));
    assert(bytes.subrange(at, bytes.len() as int) =~= encode_utf8(b));
    encode_utf8_decode_utf8(a);
    encode_utf8_decode_utf8(b);
    encode_utf8_valid_utf8(a + b);
    if a.len() > 0 {
        let rest = a.drop_first();
        assert((a + b).drop_first() =~= rest + b);
        encode_utf8_first_scalar(a + b);
        encode_utf8_first_scalar(a);
        assert(pop_first_scalar(bytes) =~= encode_utf8(rest + b));
        assert(encode_utf8(a).len() == encode_scalar(a[0] as u32).len() + encode_utf8(rest).len());
        lemma_boundary_behind_prefix(rest, b);
        assert(at > 0);
        assert(is_char_boundary(bytes, at));
    }
}

/// A character boundary splits the text: the characters before it and the
/// characters behind it make up the whole, and encode to the bytes on
/// either side.
pub proof fn lemma_boundary_splits(chars: Seq<char>, at: int)
    requires
        0 <= at <= encode_utf8(chars).len(),
        is_char_boundary(encode_utf8(chars), at),
    ensures
        ({
            let bytes = encode_utf8(chars);
            let before = decode_utf8(bytes.subrange(0, at));
            let after = decode_utf8(bytes.subrange(at, bytes.len() as int));
            &&& chars == before + after
            &&& encode_utf8(before) == bytes.subrange(0, at)
            &&& encode_utf8(after) == bytes.subrange(at, bytes.len() as int)
            &&& (at == 0 <==> before.len() == 0)
            &&& (at == bytes.len() <==> after.len() == 0)
        }),
{
    let bytes = encode_utf8(chars);
    encode_utf8_valid_utf8(chars);
    valid_utf8_split(bytes, at);
    decode_utf8_split(bytes, at);
    encode_utf8_decode_utf8(chars);
    decode_utf8_encode_utf8(bytes.subrange(0, at));
    decode_utf8_encode_utf8(bytes.subrange(at, bytes.len() as int));
}

/// How the encoding of a text starts: with between one and four bytes for
/// its first character, of which the first is no continuation byte and
/// tells the count, and the others are continuation bytes.
pub proof fn lemma_first_char_bytes(first: char, rest: Seq<char>)
    ensures
        ({
            let bytes = encode_utf8(seq![first] + rest);
            let width = encode_scalar(first as u32).len() as int;
            &&& 1 <= width <= 4
            &&& bytes.len() == width + encode_utf8(rest).len()
            &&& !is_continuation_byte(bytes[0])
            &&& forall|j: int| 0 < j < width ==> is_continuation_byte(#[trigger] bytes[j])
            &&& width == leading_width(bytes[0])
        }),
{
    let chars = seq![first] + rest;
    lemma_encode_concat(seq![first], rest);
    lemma_encode_one(first);
    encode_utf8_first_scalar(chars);
    char_is_scalar(first);
}

/// The number of bytes that a character takes, as its first byte tells it.
pub open spec fn leading_width(byte: u8) -> int {
    if byte < 0x80 {
        1
    } else if byte < 0xE0 {
        2
    } else if byte < 0xF0 {
        3
    } else {
        4
    }
}

/// `String::insert`: puts `ch` in at byte offset `idx`, which has to lie on
/// a character boundary. The text is then what stood before the offset, the
/// new character, and what stood behind. This is what the standard library
/// documents; it is relied on, not proved.
#[verifier::external_body]
fn string_insert(s: &mut String, idx: usize, ch: char)
    requires
        idx <= encode_utf8(old(s)@).len(),
        is_char_boundary(encode_utf8(old(s)@), idx as int),
    ensures
        final(s)@ == decode_utf8(encode_utf8(old(s)@).subrange(0, idx as int)) + seq![ch]
            + decode_utf8(
            encode_utf8(old(s)@).subrange(idx as int, encode_utf8(old(s)@).len() as int),
        ),
{
    s.insert(idx, ch)
}

/// `String::remove`: takes out the character that starts at byte offset
/// `idx`, which has to lie on a character boundary before the end, and
/// returns it. The text is then what stood before the offset and what stood
/// behind that character. This is what the standard library documents; it
/// is relied on, not proved.
#[verifier::external_body]
fn string_remove(s: &mut String, idx: usize) -> (ch: char)
    requires
        idx < encode_utf8(old(s)@).len(),
        is_char_boundary(encode_utf8(old(s)@), idx as int),
    ensures
        final(s)@ == decode_utf8(encode_utf8(old(s)@).subrange(0, idx as int)) + decode_utf8(
            encode_utf8(old(s)@).subrange(idx as int, encode_utf8(old(s)@).len() as int),
        ).drop_first(),
        ch == decode_utf8(
            encode_utf8(old(s)@).subrange(idx as int, encode_utf8(old(s)@).len() as int),
        )[0],
{
    s.remove(idx)
}

/// The number of bytes that `ch` takes in UTF-8.
pub fn char_width(ch: char) -> (w: usize)
    ensures
        w == encode_scalar(ch as u32).len(),
        1 <= w <= 4,
{
    proof {
        char_is_scalar(ch);
    }
    let v: u32 = ch as u32;
    if v < 0x80 {
        1
    } else if v < 0x800 {
        2
    } else if v < 0x10000 {
        3
    } else {
        4
    }
}

impl TextInputState {
    /// The text as bytes.
    pub open spec fn bytes(&self) -> Seq<u8> {
        encode_utf8(self.text@)
    }

    /// The cursor lies inside the text, on a character boundary.
    pub open spec fn wf(&self) -> bool {
        &&& self.cursor <= self.bytes().len()
        &&& is_char_boundary(self.bytes(), self.cursor as int)
    }

    /// The characters before the cursor.
    pub open spec fn before_cursor(&self) -> Seq<char> {
        decode_utf8(self.bytes().subrange(0, self.cursor as int))
    }

    /// The characters behind the cursor.
    pub open spec fn after_cursor(&self) -> Seq<char> {
        decode_utf8(self.bytes().subrange(self.cursor as int, self.bytes().len() as int))
    }

    /// An empty, focused input.
    pub fn new(placeholder: &str) -> (t: TextInputState)
        ensures
            t.text@ == Seq::<char>::empty(),
            t.cursor == 0,
            t.placeholder@ == placeholder@,
            t.focused,
            t.wf(),
    {
        let t = TextInputState {
            text: String::new(),
            cursor: 0,
            placeholder: String::from_str(placeholder),
            focused: true,
        };
        proof {
            encode_utf8_valid_utf8(t.text@);
        }
        t
    }

    /// Puts `ch` in at the cursor and moves the cursor behind it.
    pub fn insert_char(&mut self, ch: char)
        requires
            old(self).wf(),
        ensures
            final(self).wf(),
            final(self).text@ == old(self).before_cursor() + seq![ch] + old(self).after_cursor(),
            final(self).before_cursor() == old(self).before_cursor().push(ch),
            final(self).after_cursor() == old(self).after_cursor(),
            final(self).cursor == old(self).cursor + encode_scalar(ch as u32).len(),
            final(self).placeholder == old(self).placeholder,
            final(self).focused == old(self).focused,
    {
        let ghost before = self.before_cursor();
        let ghost after = self.after_cursor();
        proof {
            lemma_boundary_splits(self.text@, self.cursor as int);
        }
        string_insert(&mut self.text, self.cursor, ch);
        proof {
            lemma_encode_concat(before, seq![ch]);
            lemma_encode_one(ch);
            assert(before + seq![ch] =~= before.push(ch));
            assert(self.text@ =~= before.push(ch) + after);
            lemma_boundary_behind_prefix(before.push(ch), after);
            assert(encode_utf8(before).len() == self.cursor);
            assert(encode_utf8(before.push(ch)).len() == self.cursor + encode_scalar(
                ch as u32,
            ).len());
        }
        let len: usize = self.text.as_str().as_bytes().len();
        self.cursor = self.cursor + char_width(ch);
    }

    /// The offset of the character boundary before the cursor.
    fn previous_boundary(&self) -> (p: usize)
        requires
            self.wf(),
            self.cursor > 0,
        ensures
            self.before_cursor().len() > 0,
            p == encode_utf8(self.before_cursor().drop_last()).len(),
            p < self.cursor,
    {
        let ghost before = self.before_cursor();
        let ghost after = self.after_cursor();
        let ghost head = before.drop_last();
        let ghost tail = seq![before.last()] + after;
        let ghost q = encode_utf8(head).len() as int;
        proof {
            lemma_boundary_splits(self.text@, self.cursor as int);
            assert(before =~= head.push(before.last()));
            assert(self.text@ =~= head + tail);
            lemma_boundary_behind_prefix(head, tail);
            lemma_first_char_bytes(before.last(), after);
            lemma_encode_concat(head, seq![before.last()]);
            lemma_encode_one(before.last());
            assert(head + seq![before.last()] =~= before);
        }
        let bytes = self.text.as_str().as_bytes();
        let mut p: usize = self.cursor - 1;
        while p > 0 && bytes[p] >= 0x80 && bytes[p] <= 0xBF
            invariant
                bytes@ == encode_utf8(head + tail),
                encode_utf8(head + tail).subrange(q, encode_utf8(head + tail).len() as int)
                    == encode_utf8(tail),
                0 <= q <= p < self.cursor <= bytes@.len(),
                self.cursor == q + encode_scalar(before.last() as u32).len(),
                !is_continuation_byte(encode_utf8(tail)[0]),
                forall|j: int|
                    0 < j < encode_scalar(before.last() as u32).len() ==> is_continuation_byte(
                        #[trigger] encode_utf8(tail)[j],
                    ),
            decreases p,
        {
            assert(bytes@[p as int] == encode_utf8(tail)[p - q]);
            p = p - 1;
        }
        proof {
            if p > q {
                assert(bytes@[p as int] == encode_utf8(tail)[p - q]);
                assert(is_continuation_byte(encode_utf8(tail)[p - q]));
            }
        }
        p
    }

    /// Takes out the character before the cursor. At the start of the text
    /// nothing happens.
    pub fn backspace(&mut self)
        requires
            old(self).wf(),
        ensures
            final(self).wf(),
            old(self).before_cursor().len() == 0 ==> final(self).text@ == old(self).text@
                && final(self).cursor == old(self).cursor,
            old(self).before_cursor().len() > 0 ==> final(self).text@ == old(
                self,
            ).before_cursor().drop_last() + old(self).after_cursor(),
            final(self).before_cursor() == (if old(self).before_cursor().len() > 0 {
                old(self).before_cursor().drop_last()
            } else {
                old(self).before_cursor()
            }),
            final(self).after_cursor() == old(self).after_cursor(),
            final(self).placeholder == old(self).placeholder,
            final(self).focused == old(self).focused,
    {
        proof {
            lemma_boundary_splits(self.text@, self.cursor as int);
        }
        if self.cursor > 0 {
            let ghost before = self.before_cursor();
            let ghost after = self.after_cursor();
            let ghost head = before.drop_last();
            let ghost tail = seq![before.last()] + after;
            let prev: usize = self.previous_boundary();
            proof {
                assert(before =~= head.push(before.last()));
                assert(self.text@ =~= head + tail);
                lemma_boundary_behind_prefix(head, tail);
                lemma_first_char_bytes(before.last(), after);
                assert(tail.drop_first() =~= after);
                lemma_boundary_behind_prefix(head, after);
            }
            string_remove(&mut self.text, prev);
            self.cursor = prev;
        }
    }

    /// Hands the text out and leaves the input empty.
    pub fn take_text(&mut self) -> (text: String)
        ensures
            text@ == old(self).text@,
            final(self).text@ == Seq::<char>::empty(),
            final(self).cursor == 0,
            final(self).wf(),
            final(self).placeholder == old(self).placeholder,
            final(self).focused == old(self).focused,
    {
        let text = self.text.clone();
        self.text = String::new();
        self.cursor = 0;
        proof {
            encode_utf8_valid_utf8(self.text@);
        }
        text
    }

    /// Moves the cursor one character towards the start. At the start
    /// nothing happens.
    pub fn move_left(&mut self)
        requires
            old(self).wf(),
        ensures
            final(self).wf(),
            final(self).text == old(self).text,
            old(self).before_cursor().len() == 0 ==> final(self).cursor == old(self).cursor,
            old(self).before_cursor().len() > 0 ==> final(self).before_cursor() == old(
                self,
            ).before_cursor().drop_last() && final(self).after_cursor() == seq![
                old(self).before_cursor().last(),
            ] + old(self).after_cursor(),
            final(self).placeholder == old(self).placeholder,
            final(self).focused == old(self).focused,
    {
        proof {
            lemma_boundary_splits(self.text@, self.cursor as int);
        }
        if self.cursor > 0 {
            let ghost before = self.before_cursor();
            let ghost after = self.after_cursor();
            let ghost head = before.drop_last();
            let ghost tail = seq![before.last()] + after;
            let prev: usize = self.previous_boundary();
            proof {
                assert(before =~= head.push(before.last()));
                assert(self.text@ =~= head + tail);
                lemma_boundary_behind_prefix(head, tail);
            }
            self.cursor = prev;
        }
    }

    /// Moves the cursor one character towards the end. At the end nothing
    /// happens.
    pub fn move_right(&mut self)
        requires
            old(self).wf(),
        ensures
            final(self).wf(),
            final(self).text == old(self).text,
            old(self).after_cursor().len() == 0 ==> final(self).cursor == old(self).cursor,
            old(self).after_cursor().len() > 0 ==> final(self).before_cursor() == old(
                self,
            ).before_cursor().push(old(self).after_cursor()[0]) && final(self).after_cursor()
                == old(self).after_cursor().drop_first(),
            final(self).placeholder == old(self).placeholder,
            final(self).focused == old(self).focused,
    {
        proof {
            lemma_boundary_splits(self.text@, self.cursor as int);
        }
        let bytes = self.text.as_str().as_bytes();
        if self.cursor < bytes.len() {
            let ghost before = self.before_cursor();
            let ghost after = self.after_cursor();
            let ghost rest = after.drop_first();
            proof {
                assert(after =~= seq![after[0]] + rest);
                lemma_first_char_bytes(after[0], rest);
                lemma_encode_concat(before, seq![after[0]]);
                lemma_encode_one(after[0]);
                assert(before + after =~= before.push(after[0]) + rest);
                lemma_boundary_behind_prefix(before.push(after[0]), rest);
                assert(bytes@[self.cursor as int] == encode_utf8(after)[0]);
            }
            let lead: u8 = bytes[self.cursor];
            let width: usize = if lead < 0x80 {
                1
            } else if lead < 0xE0 {
                2
            } else if lead < 0xF0 {
                3
            } else {
                4
            };
            self.cursor = self.cursor + width;
        }
    }
}

} // verus!
