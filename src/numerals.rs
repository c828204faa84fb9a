//! Decimal numerals, and a self-delimiting encoding of texts: a text is
//! written as its length, a colon, and the text itself, so that a sequence
//! of encoded texts reads back in one way only.
use vstd::prelude::*;
use vstd::string::*;
use crate::calendar::digit_char;

verus! {

/// `n` in decimal with at least `w` digits, zero-padded on the left.
pub open spec fn decimal(n: nat, w: nat) -> Seq<char>
    decreases n + w,
{
    if n < 10 && w <= 1 {
        seq![digit_char(n as int)]
    } else {
        decimal(n / 10, if w == 0 {
            0
        } else {
            (w - 1) as nat
        }).push(digit_char((n % 10) as int))
    }
}

pub proof fn lemma_decimal_digits(n: nat, w: nat)
    ensures
        decimal(n, w).len() >= 1,
        forall|k: int| 0 <= k < decimal(n, w).len() ==> '0' <= #[trigger] decimal(n, w)[k] <= '9',
    decreases n + w,
{
    if !(n < 10 && w <= 1) {
        lemma_decimal_digits(n / 10, if w == 0 {
            0
        } else {
            (w - 1) as nat
        });
    }
}

pub proof fn lemma_digit_injective(a: int, b: int)
    requires
        0 <= a < 10,
        0 <= b < 10,
        digit_char(a) == digit_char(b),
    ensures
        a == b,
{
    assert(digit_char(a) as u32 == a + 48);
}

/// Equal numerals of equal minimal width stand for equal numbers.
pub proof fn lemma_decimal_injective(a: nat, b: nat, w: nat)
    requires
        decimal(a, w) == decimal(b, w),
    ensures
        a == b,
    decreases a + b + w,
{
    let w1: nat = if w == 0 {
        0
    } else {
        (w - 1) as nat
    };
    lemma_decimal_digits(a / 10, w1);
    lemma_decimal_digits(b / 10, w1);
    let base_a = a < 10 && w <= 1;
    let base_b = b < 10 && w <= 1;
    if base_a && base_b {
        assert(decimal(a, w)[0] == digit_char(a as int));
        assert(decimal(b, w)[0] == digit_char(b as int));
        lemma_digit_injective(a as int, b as int);
    } else if !base_a && !base_b {
        let da = decimal(a, w);
        assert(da.last() == digit_char((a % 10) as int));
        assert(decimal(b, w).last() == digit_char((b % 10) as int));
        lemma_digit_injective((a % 10) as int, (b % 10) as int);
        assert(decimal(a / 10, w1) =~= da.drop_last());
        assert(decimal(b / 10, w1) =~= decimal(b, w).drop_last());
        lemma_decimal_injective(a / 10, b / 10, w1);
    } else {
        assert(decimal(a, w).len() != decimal(b, w).len());
    }
}

/// A text as its length in decimal, a colon, and the text.
pub open spec fn field(t: Seq<char>) -> Seq<char> {
    decimal(t.len(), 0) + seq![':'] + t
}

/// An optional text: `-` when absent, else `+` and the text as a field.
pub open spec fn opt_field(t: Option<Seq<char>>) -> Seq<char> {
    match t {
        Some(x) => seq!['+'] + field(x),
        None => seq!['-'],
    }
}

/// The texts as fields, one after the other.
pub open spec fn fields(ts: Seq<Seq<char>>) -> Seq<char>
    decreases ts.len(),
{
    if ts.len() == 0 {
        Seq::<char>::empty()
    } else {
        field(ts[0]) + fields(ts.drop_first())
    }
}

/// A list of texts: how many, a colon, and the texts as fields.
pub open spec fn list_field(ts: Seq<Seq<char>>) -> Seq<char> {
    decimal(ts.len(), 0) + seq![':'] + fields(ts)
}

pub proof fn lemma_prefix_split(a1: Seq<char>, r1: Seq<char>, a2: Seq<char>, r2: Seq<char>)
    requires
        a1 + r1 == a2 + r2,
        a1.len() == a2.len(),
    ensures
        a1 == a2,
        r1 == r2,
{
    assert(a1 =~= (a1 + r1).subrange(0, a1.len() as int));
    assert(a2 =~= (a2 + r2).subrange(0, a2.len() as int));
    assert(r1 =~= (a1 + r1).subrange(a1.len() as int, (a1 + r1).len() as int));
    assert(r2 =~= (a2 + r2).subrange(a2.len() as int, (a2 + r2).len() as int));
}

/// A numeral followed by a colon reads back in one way only.
pub proof fn lemma_numeral_split(n1: nat, y1: Seq<char>, n2: nat, y2: Seq<char>)
    requires
        decimal(n1, 0) + seq![':'] + y1 == decimal(n2, 0) + seq![':'] + y2,
    ensures
        n1 == n2,
        y1 == y2,
{
    let x1 = decimal(n1, 0);
    let x2 = decimal(n2, 0);
    let s = x1 + seq![':'] + y1;
    lemma_decimal_digits(n1, 0);
    lemma_decimal_digits(n2, 0);
    if x1.len() < x2.len() {
        assert(s[x1.len() as int] == ':');
        assert(s[x1.len() as int] == x2[x1.len() as int]);
    }
    if x2.len() < x1.len() {
        assert(s[x2.len() as int] == x1[x2.len() as int]);
        assert((x2 + seq![':'] + y2)[x2.len() as int] == ':');
    }
    assert(x1 + seq![':'] + y1 =~= x1 + (seq![':'] + y1));
    assert(x2 + seq![':'] + y2 =~= x2 + (seq![':'] + y2));
    lemma_prefix_split(x1, seq![':'] + y1, x2, seq![':'] + y2);
    lemma_decimal_injective(n1, n2, 0);
    assert(y1 =~= (seq![':'] + y1).drop_first());
    assert(y2 =~= (seq![':'] + y2).drop_first());
}

/// A field followed by anything reads back in one way only.
pub proof fn lemma_field_split(t1: Seq<char>, r1: Seq<char>, t2: Seq<char>, r2: Seq<char>)
    requires
        field(t1) + r1 == field(t2) + r2,
    ensures
        t1 == t2,
        r1 == r2,
{
    assert(field(t1) + r1 =~= decimal(t1.len(), 0) + seq![':'] + (t1 + r1));
    assert(field(t2) + r2 =~= decimal(t2.len(), 0) + seq![':'] + (t2 + r2));
    lemma_numeral_split(t1.len(), t1 + r1, t2.len(), t2 + r2);
    lemma_prefix_split(t1, r1, t2, r2);
}

pub proof fn lemma_opt_field_split(
    t1: Option<Seq<char>>,
    r1: Seq<char>,
    t2: Option<Seq<char>>,
    r2: Seq<char>,
)
    requires
        opt_field(t1) + r1 == opt_field(t2) + r2,
    ensures
        t1 == t2,
        r1 == r2,
{
    let s = opt_field(t1) + r1;
    assert(s[0] == opt_field(t1)[0]);
    assert(s[0] == opt_field(t2)[0]);
    if let (Some(x1), Some(x2)) = (t1, t2) {
        assert(s.drop_first() =~= field(x1) + r1);
        assert((opt_field(t2) + r2).drop_first() =~= field(x2) + r2);
        lemma_field_split(x1, r1, x2, r2);
    } else if t1 is None && t2 is None {
        assert(r1 =~= s.drop_first());
        assert(r2 =~= (opt_field(t2) + r2).drop_first());
    }
}

proof fn lemma_fields_split(ts1: Seq<Seq<char>>, r1: Seq<char>, ts2: Seq<Seq<char>>, r2: Seq<char>)
    requires
        ts1.len() == ts2.len(),
        fields(ts1) + r1 == fields(ts2) + r2,
    ensures
        ts1 == ts2,
        r1 == r2,
    decreases ts1.len(),
{
    if ts1.len() == 0 {
        assert(r1 =~= fields(ts1) + r1);
        assert(r2 =~= fields(ts2) + r2);
        assert(ts1 =~= ts2);
    } else {
        assert(fields(ts1) + r1 =~= field(ts1[0]) + (fields(ts1.drop_first()) + r1));
        assert(fields(ts2) + r2 =~= field(ts2[0]) + (fields(ts2.drop_first()) + r2));
        lemma_field_split(ts1[0], fields(ts1.drop_first()) + r1, ts2[0], fields(ts2.drop_first()) + r2);
        lemma_fields_split(ts1.drop_first(), r1, ts2.drop_first(), r2);
        assert(ts1 =~= seq![ts1[0]] + ts1.drop_first());
        assert(ts2 =~= seq![ts2[0]] + ts2.drop_first());
    }
}

/// A list field followed by anything reads back in one way only.
pub proof fn lemma_list_field_split(
    ts1: Seq<Seq<char>>,
    r1: Seq<char>,
    ts2: Seq<Seq<char>>,
    r2: Seq<char>,
)
    requires
        list_field(ts1) + r1 == list_field(ts2) + r2,
    ensures
        ts1 == ts2,
        r1 == r2,
{
    assert(list_field(ts1) + r1 =~= decimal(ts1.len(), 0) + seq![':'] + (fields(ts1) + r1));
    assert(list_field(ts2) + r2 =~= decimal(ts2.len(), 0) + seq![':'] + (fields(ts2) + r2));
    lemma_numeral_split(ts1.len(), fields(ts1) + r1, ts2.len(), fields(ts2) + r2);
    lemma_fields_split(ts1, r1, ts2, r2);
}

/// The decimal digit of `d`.
fn digit_text(d: usize) -> (r: String)
    requires
        d < 10,
    ensures
        r@ == seq![digit_char(d as int)],
{
    proof {
        reveal_strlit("0123456789");
    }
    let s = "0123456789".substring_char(d, d + 1).to_owned();
    assert(s@ =~= seq![digit_char(d as int)]);
    s
}

/// `n` in decimal.
pub fn decimal_text(n: usize) -> (r: String)
    ensures
        r@ == decimal(n as nat, 0),
    decreases n,
{
    if n < 10 {
        digit_text(n)
    } else {
        let mut s = decimal_text(n / 10);
        s.append(digit_text(n % 10).as_str());
        s
    }
}

/// Appends `t` to `out` as a field.
pub fn push_field(out: &mut String, t: &str)
    ensures
        final(out)@ == old(out)@ + field(t@),
{
    proof {
        reveal_strlit(":");
    }
    out.append(decimal_text(t.unicode_len()).as_str());
    out.append(":");
    out.append(t);
    assert(final(out)@ =~= old(out)@ + field(t@));
}

/// Appends an optional text to `out`.
pub fn push_opt_field(out: &mut String, t: &Option<String>)
    ensures
        final(out)@ == old(out)@ + opt_field(
            match t {
                Some(x) => Some(x@),
                None => None,
            },
        ),
{
    proof {
        reveal_strlit("+");
        reveal_strlit("-");
    }
    let ghost before = out@;
    match t {
        Some(x) => {
            out.append("+");
            push_field(out, x.as_str());
            assert(out@ =~= before + (seq!['+'] + field(x@)));
        },
        None => {
            out.append("-");
        },
    }
}

/// Appends a list of texts to `out`.
pub fn push_list_field(out: &mut String, ts: &Vec<String>)
    ensures
        final(out)@ == old(out)@ + list_field(crate::text::views(ts@)),
{
    proof {
        reveal_strlit(":");
    }
    let ghost names = crate::text::views(ts@);
    out.append(decimal_text(ts.len()).as_str());
    out.append(":");
    let ghost head = out@;
    let mut i: usize = 0;
    assert(names.skip(0) =~= names);
    while i < ts.len()
        invariant
            i <= ts@.len(),
            names == crate::text::views(ts@),
            head == old(out)@ + decimal(names.len(), 0) + seq![':'],
            out@ + fields(names.skip(i as int)) == head + fields(names),
        decreases ts@.len() - i,
    {
        let ghost before = out@;
        assert(names.skip(i as int) =~= seq![names[i as int]] + names.skip(i + 1));
        assert(fields(names.skip(i as int)) == field(names[i as int]) + fields(names.skip(i + 1))) by {
            assert(names.skip(i as int).drop_first() =~= names.skip(i + 1));
        }
        push_field(out, ts[i].as_str());
        assert(out@ + fields(names.skip(i + 1)) =~= before + fields(names.skip(i as int)));
        i = i + 1;
    }
    assert(fields(names.skip(i as int)) =~= Seq::<char>::empty()) by {
        assert(names.skip(i as int).len() == 0);
    }
    assert(out@ =~= old(out)@ + list_field(names));
}

} // verus!
