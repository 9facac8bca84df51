//! Text helpers: character-count previews, markup escaping and string building.

use vstd::prelude::*;

verus! {

/// Longest preview, in characters, before an ellipsis is added.
pub const PREVIEW_MAX_CHARS: usize = 100;

/// The marker appended to a truncated preview.
pub const ELLIPSIS: &'static str = "...";

/// The preview of a text: the first hundred characters and an ellipsis when
/// the text is longer than that, the text itself otherwise.
pub open spec fn preview_of(s: Seq<char>) -> Seq<char> {
    if s.len() > PREVIEW_MAX_CHARS {
        s.take(PREVIEW_MAX_CHARS as int) + seq!['.', '.', '.']
    } else {
        s
    }
}

pub open spec fn amp_entity() -> Seq<char> {
    seq!['&', 'a', 'm', 'p', ';']
}

pub open spec fn lt_entity() -> Seq<char> {
    seq!['&', 'l', 't', ';']
}

pub open spec fn gt_entity() -> Seq<char> {
    seq!['&', 'g', 't', ';']
}

/// How one character appears in markup.
pub open spec fn escape_char(c: char) -> Seq<char> {
    if c == '&' {
        amp_entity()
    } else if c == '<' {
        lt_entity()
    } else if c == '>' {
        gt_entity()
    } else {
        seq![c]
    }
}

/// A text with `&`, `<` and `>` replaced by their entities.
pub open spec fn escaped(s: Seq<char>) -> Seq<char>
    decreases s.len(),
{
    if s.len() == 0 {
        Seq::empty()
    } else {
        escaped(s.drop_last()) + escape_char(s.last())
    }
}

/// Reads the three entities back as the characters they stand for.
pub open spec fn unescaped(s: Seq<char>) -> Seq<char>
    decreases s.len(),
{
    if s.len() == 0 {
        Seq::empty()
    } else if s.len() >= 5 && s.take(5) == amp_entity() {
        seq!['&'] + unescaped(s.skip(5))
    } else if s.len() >= 4 && s.take(4) == lt_entity() {
        seq!['<'] + unescaped(s.skip(4))
    } else if s.len() >= 4 && s.take(4) == gt_entity() {
        seq!['>'] + unescaped(s.skip(4))
    } else {
        seq![s[0]] + unescaped(s.skip(1))
    }
}

/// Whether an entity starts at position `i` of `s`.
pub open spec fn entity_at(s: Seq<char>, i: int) -> bool {
    ||| (i + 5 <= s.len() && s.subrange(i, i + 5) == amp_entity())
    ||| (i + 4 <= s.len() && s.subrange(i, i + 4) == lt_entity())
    ||| (i + 4 <= s.len() && s.subrange(i, i + 4) == gt_entity())
}

/// No `<` or `>`, and every `&` opens one of the three entities.
pub open spec fn markup_safe(s: Seq<char>) -> bool {
    forall|i: int|
        0 <= i < s.len() ==> {
            &&& s[i] != '<'
            &&& s[i] != '>'
            &&& (s[i] == '&' ==> entity_at(s, i))
        }
}

proof fn lemma_escaped_cons(c: char, s: Seq<char>)
    ensures
        escaped(seq![c] + s) == escape_char(c) + escaped(s),
    decreases s.len(),
{
    let cs = seq![c] + s;
    if s.len() == 0 {
        assert(cs.drop_last() == Seq::<char>::empty());
        assert(escaped(Seq::<char>::empty()) == Seq::<char>::empty());
        assert(s == Seq::<char>::empty());
        assert(escape_char(c) + Seq::<char>::empty() == escape_char(c));
    } else {
        assert(cs.drop_last() == seq![c] + s.drop_last());
        assert(cs.last() == s.last());
        lemma_escaped_cons(c, s.drop_last());
        assert(escape_char(c) + escaped(s.drop_last()) + escape_char(s.last()) == escape_char(c) + (
        escaped(s.drop_last()) + escape_char(s.last())));
    }
}

proof fn lemma_unescaped_cons(c: char, t: Seq<char>)
    ensures
        unescaped(escape_char(c) + t) == seq![c] + unescaped(t),
{
    let e = escape_char(c) + t;
    if c == '&' {
        assert(e.take(5) == amp_entity());
        assert(e.skip(5) == t);
    } else if c == '<' {
        assert(e.take(5) != amp_entity() || e.len() < 5) by {
            if e.len() >= 5 {
                assert(e.take(5)[1] == 'l');
            }
        }
        assert(e.take(4) == lt_entity());
        assert(e.skip(4) == t);
    } else if c == '>' {
        assert(e.take(5) != amp_entity() || e.len() < 5) by {
            if e.len() >= 5 {
                assert(e.take(5)[1] == 'g');
            }
        }
        assert(e.take(4) != lt_entity()) by {
            assert(e.take(4)[1] == 'g');
        }
        assert(e.take(4) == gt_entity());
        assert(e.skip(4) == t);
    } else {
        assert(e[0] == c);
        if e.len() >= 5 {
            assert(e.take(5)[0] == c);
        }
        if e.len() >= 4 {
            assert(e.take(4)[0] == c);
        }
        assert(e.skip(1) == t);
    }
}

/// Un-escaping an escaped text gives the text back, and the escaped text
/// holds no raw `<` or `>` and no `&` that does not open an entity.
pub proof fn lemma_escape_round_trip(s: Seq<char>)
    ensures
        unescaped(escaped(s)) == s,
        markup_safe(escaped(s)),
    decreases s.len(),
{
    if s.len() == 0 {
        assert(escaped(s) == Seq::<char>::empty());
    } else {
        let rest = s.skip(1);
        assert(s == seq![s[0]] + rest);
        lemma_escaped_cons(s[0], rest);
        lemma_unescaped_cons(s[0], escaped(rest));
        lemma_escape_round_trip(rest);
        lemma_escaped_safe(s);
    }
}

proof fn lemma_escaped_safe(s: Seq<char>)
    ensures
        markup_safe(escaped(s)),
    decreases s.len(),
{
    if s.len() > 0 {
        let p = escaped(s.drop_last());
        let c = s.last();
        let e = escape_char(c);
        let all = p + e;
        lemma_escaped_safe(s.drop_last());
        assert forall|i: int| 0 <= i < all.len() implies {
            &&& all[i] != '<'
            &&& all[i] != '>'
            &&& (all[i] == '&' ==> entity_at(all, i))
        } by {
            if i < p.len() {
                assert(all[i] == p[i]);
                if p[i] == '&' {
                    assert(entity_at(p, i));
                    if i + 5 <= p.len() && p.subrange(i, i + 5) == amp_entity() {
                        assert(all.subrange(i, i + 5) == p.subrange(i, i + 5));
                    } else if i + 4 <= p.len() && p.subrange(i, i + 4) == lt_entity() {
                        assert(all.subrange(i, i + 4) == p.subrange(i, i + 4));
                    } else {
                        assert(all.subrange(i, i + 4) == p.subrange(i, i + 4));
                    }
                }
            } else {
                assert(all[i] == e[i - p.len()]);
                if c == '&' {
                    if i == p.len() {
                        assert(all.subrange(i, i + 5) == amp_entity());
                    }
                } else if c == '<' {
                    if i == p.len() {
                        assert(all.subrange(i, i + 4) == lt_entity());
                    }
                } else if c == '>' {
                    if i == p.len() {
                        assert(all.subrange(i, i + 4) == gt_entity());
                    }
                }
            }
        }
    }
}

/// A preview longer than the cut is the first hundred characters and the
/// ellipsis; a shorter text is its own preview.
pub proof fn lemma_preview_shape(s: Seq<char>)
    ensures
        s.len() > PREVIEW_MAX_CHARS ==> {
            &&& preview_of(s).len() == PREVIEW_MAX_CHARS + 3
            &&& preview_of(s).take(PREVIEW_MAX_CHARS as int) == s.take(PREVIEW_MAX_CHARS as int)
            &&& preview_of(s).skip(PREVIEW_MAX_CHARS as int) == seq!['.', '.', '.']
        },
        s.len() <= PREVIEW_MAX_CHARS ==> preview_of(s) == s,
{
    if s.len() > PREVIEW_MAX_CHARS {
        let p = preview_of(s);
        assert(p.take(PREVIEW_MAX_CHARS as int) == s.take(PREVIEW_MAX_CHARS as int));
        assert(p.skip(PREVIEW_MAX_CHARS as int) == seq!['.', '.', '.']);
    }
}

/// How one character appears inside a single-quoted attribute.
pub open spec fn attr_escape_char(c: char) -> Seq<char> {
    if c == '\'' {
        seq!['&', 'a', 'p', 'o', 's', ';']
    } else {
        escape_char(c)
    }
}

/// A text escaped for a single-quoted attribute: the markup characters and `'`.
pub open spec fn attr_escaped(s: Seq<char>) -> Seq<char>
    decreases s.len(),
{
    if s.len() == 0 {
        Seq::empty()
    } else {
        attr_escaped(s.drop_last()) + attr_escape_char(s.last())
    }
}

/// Relies on String::push: the character is appended at the end.
#[verifier::external_body]
pub(crate) fn push_char(s: &mut String, c: char)
    ensures
        final(s)@ == old(s)@.push(c),
{
    s.push(c)
}

/// The characters of `s`, in order.
pub fn chars_of(s: &str) -> (r: Vec<char>)
    ensures
        r@ == s@,
{
    let mut r: Vec<char> = Vec::new();
    for c in it: s.chars()
        invariant
            it.seq() == s@,
            r@ == it.seq().take(it.index() as int),
    {
        proof {
            assert(it.seq().take(it.index() as int + 1) == r@.push(c));
        }
        r.push(c);
    }
    proof {
        assert(r@ == s@);
    }
    r
}

/// The preview shown for a text: at most a hundred characters, then an ellipsis
/// if anything was cut.
pub fn truncate_preview(text: &str) -> (r: String)
    ensures
        r@ == preview_of(text@),
{
    let n = text.unicode_len();
    if n > PREVIEW_MAX_CHARS {
        let head = text.substring_char(0, PREVIEW_MAX_CHARS);
        let mut r = String::from_str(head);
        r.append(ELLIPSIS);
        proof {
            reveal_strlit("...");
            assert(head@ == text@.take(PREVIEW_MAX_CHARS as int));
        }
        r
    } else {
        String::from_str(text)
    }
}

/// Escapes `&`, `<` and `>` for embedding in markup.
pub fn escape_markup(text: &str) -> (r: String)
    ensures
        r@ == escaped(text@),
{
    let mut r = String::new();
    let chars = chars_of(text);
    let mut i: usize = 0;
    while i < chars.len()
        invariant
            chars@ == text@,
            i <= chars.len(),
            r@ == escaped(chars@.take(i as int)),
        decreases chars.len() - i,
    {
        let c = chars[i];
        proof {
            let t = chars@.take(i as int + 1);
            assert(t.drop_last() == chars@.take(i as int));
            assert(t.last() == c);
        }
        if c == '&' {
            r.append("&amp;");
            proof { reveal_strlit("&amp;"); }
        } else if c == '<' {
            r.append("&lt;");
            proof { reveal_strlit("&lt;"); }
        } else if c == '>' {
            r.append("&gt;");
            proof { reveal_strlit("&gt;"); }
        } else {
            push_char(&mut r, c);
            proof { assert(seq![c] == Seq::<char>::empty().push(c)); }
        }
        i = i + 1;
    }
    proof {
        assert(chars@.take(chars.len() as int) == text@);
    }
    r
}

/// The decimal digit for `d < 10`.
pub open spec fn digit_char(d: int) -> char {
    seq!['0', '1', '2', '3', '4', '5', '6', '7', '8', '9'][d]
}

/// The decimal writing of a natural number, without leading zeros.
pub open spec fn decimal_of(n: nat) -> Seq<char>
    decreases n,
{
    if n < 10 {
        seq![digit_char(n as int)]
    } else {
        decimal_of(n / 10).push(digit_char((n % 10) as int))
    }
}

/// The decimal writing of an integer, with a leading `-` when negative.
pub open spec fn signed_decimal_of(n: int) -> Seq<char> {
    if n < 0 {
        seq!['-'] + decimal_of((-n) as nat)
    } else {
        decimal_of(n as nat)
    }
}

fn digit(d: u64) -> (c: char)
    requires
        d < 10,
    ensures
        c == digit_char(d as int),
{
    let digits = ['0', '1', '2', '3', '4', '5', '6', '7', '8', '9'];
    proof {
        assert(digits@ == seq!['0', '1', '2', '3', '4', '5', '6', '7', '8', '9']);
    }
    digits[d as usize]
}

/// Appends the decimal writing of `n`.
pub fn append_decimal(s: &mut String, n: u64)
    ensures
        final(s)@ == old(s)@ + decimal_of(n as nat),
{
    let ghost start = s@;
    let mut m = n;
    let mut low: Vec<char> = Vec::new();
    let ghost suffix: Seq<char> = Seq::empty();
    while m >= 10
        invariant
            decimal_of(n as nat) == decimal_of(m as nat) + suffix,
            low.len() == suffix.len(),
            forall|j: int| 0 <= j < suffix.len() ==> suffix[j] == low@[low.len() - 1 - j],
        decreases m,
    {
        let c = digit(m % 10);
        proof {
            assert(decimal_of(m as nat) == decimal_of((m / 10) as nat).push(c));
            assert(decimal_of((m / 10) as nat).push(c) + suffix == decimal_of((m / 10) as nat) + (seq![c] + suffix));
            suffix = seq![c] + suffix;
        }
        low.push(c);
        m = m / 10;
    }
    push_char(s, digit(m));
    let mut k: usize = low.len();
    while k > 0
        invariant
            k <= low.len(),
            low.len() == suffix.len(),
            forall|j: int| 0 <= j < suffix.len() ==> suffix[j] == low@[low.len() - 1 - j],
            s@ == start + seq![digit_char(m as int)] + suffix.take(low.len() - k),
            decimal_of(n as nat) == decimal_of(m as nat) + suffix,
            m < 10,
        decreases k,
    {
        k = k - 1;
        let c = low[k];
        proof {
            let done = (low.len() - 1 - k) as int;
            assert(suffix[done] == c);
            assert(suffix.take(done + 1) == suffix.take(done).push(c));
        }
        push_char(s, c);
    }
    proof {
        assert(suffix.take(suffix.len() as int) == suffix);
        assert(decimal_of(m as nat) == seq![digit_char(m as int)]);
    }
}

/// Appends the decimal writing of `n`, signed.
pub fn append_signed_decimal(s: &mut String, n: i64)
    ensures
        final(s)@ == old(s)@ + signed_decimal_of(n as int),
{
    if n < 0 {
        push_char(s, '-');
        let magnitude: u64 = if n == i64::MIN { 9_223_372_036_854_775_808u64 } else { (-n) as u64 };
        append_decimal(s, magnitude);
        proof {
            assert(seq!['-'] == Seq::<char>::empty().push('-'));
        }
    } else {
        append_decimal(s, n as u64);
    }
}

/// Escapes `&`, `<`, `>` and `'` for a single-quoted attribute value.
pub fn escape_attribute(text: &str) -> (r: String)
    ensures
        r@ == attr_escaped(text@),
{
    let mut r = String::new();
    let chars = chars_of(text);
    let mut i: usize = 0;
    while i < chars.len()
        invariant
            chars@ == text@,
            i <= chars.len(),
            r@ == attr_escaped(chars@.take(i as int)),
        decreases chars.len() - i,
    {
        let c = chars[i];
        proof {
            let t = chars@.take(i as int + 1);
            assert(t.drop_last() == chars@.take(i as int));
            assert(t.last() == c);
        }
        if c == '\'' {
            r.append("&apos;");
            proof { reveal_strlit("&apos;"); }
        } else if c == '&' {
            r.append("&amp;");
            proof { reveal_strlit("&amp;"); }
        } else if c == '<' {
            r.append("&lt;");
            proof { reveal_strlit("&lt;"); }
        } else if c == '>' {
            r.append("&gt;");
            proof { reveal_strlit("&gt;"); }
        } else {
            push_char(&mut r, c);
            proof { assert(seq![c] == Seq::<char>::empty().push(c)); }
        }
        i = i + 1;
    }
    proof {
        assert(chars@.take(chars.len() as int) == text@);
    }
    r
}

} // verus!
