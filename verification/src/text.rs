//! Verified text building blocks: decimal and hexadecimal rendering,
//! left / right / centre padding to a column width, and joining cells with a
//! separator.  Every routine is specified exactly over `Seq<char>`.

use vstd::prelude::*;
use vstd::string::*;

verus! {

/// `String::push` appends one character; vstd gives it no specification.
pub assume_specification[ String::push ](s: &mut String, ch: char)
    ensures
        final (s)@ == old(s)@.push(ch),
;

/// A run of `n` copies of the character `c`.
pub open spec fn spec_repeat(c: char, n: nat) -> Seq<char> {
    Seq::new(n, |i: int| c)
}

/// `s` left-aligned in a field of width `w`: space-padded on the right,
/// unchanged when it is already as wide.
pub open spec fn spec_pad_right(s: Seq<char>, w: nat) -> Seq<char> {
    if s.len() >= w {
        s
    } else {
        s + spec_repeat(' ', (w - s.len()) as nat)
    }
}

/// `s` right-aligned in a field of width `w`: space-padded on the left.
pub open spec fn spec_pad_left(s: Seq<char>, w: nat) -> Seq<char> {
    if s.len() >= w {
        s
    } else {
        spec_repeat(' ', (w - s.len()) as nat) + s
    }
}

/// `s` centred in a field of width `w`; when the spare width is odd the
/// extra space goes to the right, as the standard formatter does.
pub open spec fn spec_centre(s: Seq<char>, w: nat) -> Seq<char> {
    if s.len() >= w {
        s
    } else {
        spec_repeat(' ', ((w - s.len()) / 2) as nat) + s + spec_repeat(
            ' ',
            ((w - s.len()) - (w - s.len()) / 2) as nat,
        )
    }
}

/// The character for one decimal digit.
pub open spec fn spec_digit(d: nat) -> char {
    ((48 + d) as u8) as char
}

/// The decimal rendering of `n`, most significant digit first, no sign and
/// no leading zeros (a single `'0'` for zero).
pub open spec fn spec_dec(n: nat) -> Seq<char>
    decreases n,
{
    if n < 10 {
        seq![spec_digit(n)]
    } else {
        spec_dec(n / 10).push(spec_digit(n % 10))
    }
}

/// The character for one lower-case hexadecimal digit.
pub open spec fn spec_hex_digit(d: nat) -> char {
    if d < 10 {
        spec_digit(d)
    } else {
        ((97 + (d - 10)) as u8) as char
    }
}

/// Exactly `w` lower-case hexadecimal digits of `n`, zero-padded, most
/// significant first.
pub open spec fn spec_hex(n: nat, w: nat) -> Seq<char>
    decreases w,
{
    if w == 0 {
        Seq::empty()
    } else {
        spec_hex(n / 16, (w - 1) as nat).push(spec_hex_digit(n % 16))
    }
}

/// The elements of `items` joined with the separator `sep`.
pub open spec fn spec_join(items: Seq<Seq<char>>, sep: Seq<char>) -> Seq<char>
    decreases items.len(),
{
    if items.len() == 0 {
        Seq::empty()
    } else if items.len() == 1 {
        items[0]
    } else {
        items[0] + sep + spec_join(items.drop_first(), sep)
    }
}

/// A string of `n` copies of `c`.
pub fn repeat(c: char, n: usize) -> (r: String)
    ensures
        r@ == spec_repeat(c, n as nat),
{
    let mut s = String::new();
    let mut i: usize = 0;
    while i < n
        invariant
            i <= n,
            s@ == spec_repeat(c, i as nat),
        decreases n - i,
    {
        s.push(c);
        proof {
            assert(s@ =~= spec_repeat(c, (i + 1) as nat));
        }
        i = i + 1;
    }
    s
}

/// Left-align `s` in a field of `width` spaces.
pub fn pad_right(s: &str, width: usize) -> (r: String)
    ensures
        r@ == spec_pad_right(s@, width as nat),
{
    let len = s.unicode_len();
    let mut r = s.to_owned();
    if len < width {
        let pad = repeat(' ', width - len);
        r.append(pad.as_str());
        proof {
            assert(r@ =~= spec_pad_right(s@, width as nat));
        }
    }
    r
}

/// Right-align `s` in a field of `width` spaces.
pub fn pad_left(s: &str, width: usize) -> (r: String)
    ensures
        r@ == spec_pad_left(s@, width as nat),
{
    let len = s.unicode_len();
    if len < width {
        let mut r = repeat(' ', width - len);
        r.append(s);
        proof {
            assert(r@ =~= spec_pad_left(s@, width as nat));
        }
        r
    } else {
        s.to_owned()
    }
}

/// Centre `s` in a field of `width` spaces.
pub fn centre(s: &str, width: usize) -> (r: String)
    ensures
        r@ == spec_centre(s@, width as nat),
{
    let len = s.unicode_len();
    if len < width {
        let spare = width - len;
        let left = spare / 2;
        let mut r = repeat(' ', left);
        r.append(s);
        let right = repeat(' ', spare - left);
        r.append(right.as_str());
        proof {
            assert(r@ =~= spec_centre(s@, width as nat));
        }
        r
    } else {
        s.to_owned()
    }
}

fn digit_char(d: u8) -> (c: char)
    requires
        d < 10,
    ensures
        c == spec_digit(d as nat),
{
    (48 + d) as char
}

fn hex_digit_char(d: u8) -> (c: char)
    requires
        d < 16,
    ensures
        c == spec_hex_digit(d as nat),
{
    if d < 10 {
        (48 + d) as char
    } else {
        (97 + (d - 10)) as char
    }
}

/// The decimal rendering of `v`, without padding.
pub fn dec_u64(v: u64) -> (r: String)
    ensures
        r@ == spec_dec(v as nat),
    decreases v,
{
    if v < 10 {
        let mut s = String::new();
        s.push(digit_char(v as u8));
        proof {
            assert(s@ =~= spec_dec(v as nat));
        }
        s
    } else {
        let mut s = dec_u64(v / 10);
        s.push(digit_char((v % 10) as u8));
        s
    }
}

/// The decimal rendering of `v`, right-aligned in a field of `width`.
pub fn dec_pad_left(v: u64, width: usize) -> (r: String)
    ensures
        r@ == spec_pad_left(spec_dec(v as nat), width as nat),
{
    let s = dec_u64(v);
    pad_left(s.as_str(), width)
}

/// Exactly `width` lower-case hexadecimal digits of `v`, zero-padded.
pub fn hex_digits(v: u64, width: usize) -> (r: String)
    ensures
        r@ == spec_hex(v as nat, width as nat),
    decreases width,
{
    if width == 0 {
        let s = String::new();
        proof {
            assert(s@ =~= spec_hex(v as nat, 0));
        }
        s
    } else {
        let mut s = hex_digits(v / 16, width - 1);
        s.push(hex_digit_char((v % 16) as u8));
        s
    }
}

/// Join the strings of `items` with the separator `sep`.
pub fn join_with(items: &Vec<String>, sep: &str) -> (r: String)
    ensures
        r@ == spec_join(items@.map_values(|s: String| s@), sep@),
{
    let ghost views = items@.map_values(|s: String| s@);
    let mut r = String::new();
    let mut i: usize = 0;
    while i < items.len()
        invariant
            i <= items.len(),
            views == items@.map_values(|s: String| s@),
            r@ == spec_join(views.take(i as int), sep@),
        decreases items.len() - i,
    {
        if i > 0 {
            r.append(sep);
        }
        r.append(items[i].as_str());
        proof {
            lemma_join_snoc(views, i as int, sep@);
        }
        i = i + 1;
    }
    proof {
        assert(views.take(items@.len() as int) =~= views);
    }
    r
}

proof fn lemma_join_snoc(items: Seq<Seq<char>>, i: int, sep: Seq<char>)
    requires
        0 <= i < items.len(),
    ensures
        i == 0 ==> spec_join(items.take(1), sep) =~= items[0],
        i > 0 ==> spec_join(items.take(i + 1), sep) =~= spec_join(items.take(i), sep) + sep
            + items[i],
    decreases i,
{
    if i == 0 {
        assert(items.take(1).len() == 1);
        assert(items.take(1)[0] == items[0]);
    } else {
        let pre1 = items.take(i + 1);
        let pre = items.take(i);
        assert(pre1.len() >= 2);
        assert(pre1[0] == items[0]);
        assert(pre1.drop_first() =~= items.drop_first().take(i));
        assert(pre[0] == items[0]);
        assert(pre.drop_first() =~= items.drop_first().take(i - 1));
        lemma_join_snoc(items.drop_first(), i - 1, sep);
        if i == 1 {
            assert(spec_join(pre1, sep) == items[0] + sep + spec_join(pre1.drop_first(), sep));
            assert(spec_join(items.drop_first().take(1), sep) =~= items.drop_first()[0]);
            assert(spec_join(pre, sep) =~= items[0]);
        } else {
            assert(spec_join(pre1, sep) == items[0] + sep + spec_join(
                items.drop_first().take(i),
                sep,
            ));
            assert(spec_join(pre, sep) == items[0] + sep + spec_join(
                items.drop_first().take(i - 1),
                sep,
            ));
            assert(items.drop_first()[i - 1] == items[i]);
            assert(spec_join(items.drop_first().take(i), sep) =~= spec_join(
                items.drop_first().take(i - 1),
                sep,
            ) + sep + items[i]);
            assert(spec_join(pre1, sep) =~= spec_join(pre, sep) + sep + items[i]);
        }
    }
}

/// The largest of `a` and `b`.
pub open spec fn spec_max(a: nat, b: nat) -> nat {
    if a >= b {
        a
    } else {
        b
    }
}

/// The largest element of `s`, or zero when `s` is empty.
pub open spec fn spec_seq_max(s: Seq<nat>) -> nat
    decreases s.len(),
{
    if s.len() == 0 {
        0
    } else {
        spec_max(s[0], spec_seq_max(s.drop_first()))
    }
}

/// Extending a sequence by one element takes its maximum to the larger of
/// the old maximum and that element.
pub proof fn lemma_seq_max_snoc(s: Seq<nat>, i: int)
    requires
        0 <= i < s.len(),
    ensures
        spec_seq_max(s.take(i + 1)) == spec_max(spec_seq_max(s.take(i)), s[i]),
    decreases i,
{
    let pre1 = s.take(i + 1);
    let pre = s.take(i);
    if i == 0 {
        assert(pre1[0] == s[0]);
        assert(pre1.drop_first() =~= Seq::<nat>::empty());
        assert(pre =~= Seq::<nat>::empty());
    } else {
        assert(pre1[0] == s[0]);
        assert(pre1.drop_first() =~= s.drop_first().take(i));
        assert(pre[0] == s[0]);
        assert(pre.drop_first() =~= s.drop_first().take(i - 1));
        lemma_seq_max_snoc(s.drop_first(), i - 1);
        assert(s.drop_first()[i - 1] == s[i]);
    }
}

/// The maximum of a sequence bounds every element, and is reached by one of
/// them whenever it is not zero.
pub proof fn lemma_seq_max_is_tight(s: Seq<nat>)
    ensures
        forall|i: int| 0 <= i < s.len() ==> s[i] <= spec_seq_max(s),
        spec_seq_max(s) > 0 ==> exists|i: int| 0 <= i < s.len() && s[i] == spec_seq_max(s),
    decreases s.len(),
{
    if s.len() > 0 {
        lemma_seq_max_is_tight(s.drop_first());
        assert(forall|i: int|
            1 <= i < s.len() ==> s[i] == s.drop_first()[i - 1] && s[i] <= spec_seq_max(s));
        if spec_seq_max(s) > 0 {
            if s[0] == spec_seq_max(s) {
            } else {
                let j = choose|j: int|
                    0 <= j < s.drop_first().len() && s.drop_first()[j] == spec_seq_max(
                        s.drop_first(),
                    );
                assert(s[j + 1] == spec_seq_max(s));
            }
        }
    }
}

} // verus!
