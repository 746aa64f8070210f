//! Building the text of records: decimal digits of integers, `true` and
//! `false`, and optional values written `Some(..)` or `None`, as Rust's
//! `Display` and `Debug` write them.
use vstd::prelude::*;
use vstd::string::StringExecFns;

verus! {

/// The text of a single decimal digit.
pub open spec fn digit_text(d: int) -> Seq<char> {
    if d == 0 {
        "0"@
    } else if d == 1 {
        "1"@
    } else if d == 2 {
        "2"@
    } else if d == 3 {
        "3"@
    } else if d == 4 {
        "4"@
    } else if d == 5 {
        "5"@
    } else if d == 6 {
        "6"@
    } else if d == 7 {
        "7"@
    } else if d == 8 {
        "8"@
    } else {
        "9"@
    }
}

/// The decimal digits of `n`, most significant first, without leading zeros.
pub open spec fn digits(n: nat) -> Seq<char>
    decreases n,
{
    if n < 10 {
        digit_text(n as int)
    } else {
        digits(n / 10) + digit_text((n % 10) as int)
    }
}

/// The text of an integer: a `-` before the digits of a negative one.
pub open spec fn int_text(n: int) -> Seq<char> {
    if n < 0 {
        "-"@ + digits((-n) as nat)
    } else {
        digits(n as nat)
    }
}

/// `n` zeros.
pub open spec fn zeros(n: nat) -> Seq<char>
    decreases n,
{
    if n == 0 {
        Seq::empty()
    } else {
        zeros((n - 1) as nat).push('0')
    }
}

/// `s` padded on the left with zeros to `width` characters.
pub open spec fn zero_padded(s: Seq<char>, width: nat) -> Seq<char> {
    if s.len() >= width {
        s
    } else {
        zeros((width - s.len()) as nat) + s
    }
}

/// `s` without its trailing zeros.
pub open spec fn trim_zeros(s: Seq<char>) -> Seq<char>
    decreases s.len(),
{
    if s.len() > 0 && s.last() == '0' {
        trim_zeros(s.drop_last())
    } else {
        s
    }
}

/// `true` or `false`.
pub open spec fn bool_text(b: bool) -> Seq<char> {
    if b {
        "true"@
    } else {
        "false"@
    }
}

/// An optional value's text: `Some(` the value's text `)`, or `None`.
pub open spec fn option_text(o: Option<Seq<char>>) -> Seq<char> {
    match o {
        Some(t) => "Some("@ + t + ")"@,
        None => "None"@,
    }
}

/// Appends `t` to `s`.
pub(crate) fn push_text(s: &mut String, t: &str)
    ensures
        final(s)@ == old(s)@ + t@,
{
    s.append(t);
}

fn digit_str(d: u128) -> (r: &'static str)
    requires
        d < 10,
    ensures
        r@ == digit_text(d as int),
{
    if d == 0 {
        "0"
    } else if d == 1 {
        "1"
    } else if d == 2 {
        "2"
    } else if d == 3 {
        "3"
    } else if d == 4 {
        "4"
    } else if d == 5 {
        "5"
    } else if d == 6 {
        "6"
    } else if d == 7 {
        "7"
    } else if d == 8 {
        "8"
    } else {
        "9"
    }
}

/// Appends the decimal digits of `n`.
pub(crate) fn push_digits(s: &mut String, n: u128)
    ensures
        final(s)@ == old(s)@ + digits(n as nat),
    decreases n,
{
    if n >= 10 {
        push_digits(s, n / 10);
        let ghost mid = s@;
        push_text(s, digit_str(n % 10));
        proof {
            assert(mid == old(s)@ + digits((n / 10) as nat));
            assert(s@ =~= old(s)@ + (digits((n / 10) as nat) + digit_text((n % 10) as int)));
        }
    } else {
        push_text(s, digit_str(n));
    }
}

/// Appends `true` or `false`.
pub(crate) fn push_bool(s: &mut String, b: bool)
    ensures
        final(s)@ == old(s)@ + bool_text(b),
{
    if b {
        push_text(s, "true");
    } else {
        push_text(s, "false");
    }
}

/// Appends an optional number as `Some(n)` or `None`.
pub(crate) fn push_option_number(s: &mut String, o: Option<u128>)
    ensures
        final(s)@ == old(s)@ + option_text(
            match o {
                Some(n) => Some(digits(n as nat)),
                None => None,
            },
        ),
{
    match o {
        Some(n) => {
            push_text(s, "Some(");
            push_digits(s, n);
            push_text(s, ")");
            assert(s@ =~= old(s)@ + ("Some("@ + digits(n as nat) + ")"@));
        },
        None => {
            push_text(s, "None");
        },
    }
}

/// Appends an optional flag as `Some(true)`, `Some(false)` or `None`.
pub(crate) fn push_option_bool(s: &mut String, o: Option<bool>)
    ensures
        final(s)@ == old(s)@ + option_text(
            match o {
                Some(b) => Some(bool_text(b)),
                None => None,
            },
        ),
{
    match o {
        Some(b) => {
            push_text(s, "Some(");
            push_bool(s, b);
            push_text(s, ")");
            assert(s@ =~= old(s)@ + ("Some("@ + bool_text(b) + ")"@));
        },
        None => {
            push_text(s, "None");
        },
    }
}

/// Appends an optional text as `Some(..)` or `None`.
pub(crate) fn push_option_text(s: &mut String, o: &Option<String>)
    ensures
        final(s)@ == old(s)@ + option_text(
            match o {
                Some(t) => Some(t@),
                None => None,
            },
        ),
{
    match o {
        Some(t) => {
            push_text(s, "Some(");
            push_text(s, t.as_str());
            push_text(s, ")");
            assert(s@ =~= old(s)@ + ("Some("@ + t@ + ")"@));
        },
        None => {
            push_text(s, "None");
        },
    }
}

/// Whether `s` holds no `|`.
pub open spec fn no_bar(s: Seq<char>) -> bool {
    forall|i: int| 0 <= i < s.len() ==> #[trigger] s[i] != '|'
}

/// Whether `s` holds only the digits `0` to `9`.
pub open spec fn all_digits(s: Seq<char>) -> bool {
    forall|i: int| 0 <= i < s.len() ==> '0' <= #[trigger] s[i] && s[i] <= '9'
}

/// The fields of `s` between its `|` separators, in order (one more field
/// than separators).
pub open spec fn bar_fields(s: Seq<char>) -> Seq<Seq<char>>
    decreases s.len(),
{
    if s.len() == 0 {
        seq![Seq::<char>::empty()]
    } else {
        let p = bar_fields(s.drop_last());
        if s.last() == '|' {
            p.push(Seq::empty())
        } else {
            p.update(p.len() - 1, p.last().push(s.last()))
        }
    }
}

/// Fields joined with `|` between them.
pub open spec fn join_bar(fs: Seq<Seq<char>>) -> Seq<char>
    decreases fs.len(),
{
    if fs.len() == 0 {
        Seq::empty()
    } else if fs.len() == 1 {
        fs[0]
    } else {
        join_bar(fs.drop_last()) + "|"@ + fs.last()
    }
}

/// The number a string of decimal digits reads as; `None` for an empty
/// string or one with another character.
pub open spec fn digits_value(s: Seq<char>) -> Option<nat>
    decreases s.len(),
{
    if s.len() == 0 {
        None
    } else {
        let c = s.last();
        if !('0' <= c && c <= '9') {
            None
        } else if s.len() == 1 {
            Some((c as int - '0' as int) as nat)
        } else {
            match digits_value(s.drop_last()) {
                None => None,
                Some(v) => Some((v * 10 + (c as int - '0' as int)) as nat),
            }
        }
    }
}

proof fn lemma_digit_text(d: int)
    requires
        0 <= d < 10,
    ensures
        digit_text(d).len() == 1,
        digit_text(d)[0] as int == '0' as int + d,
{
    reveal_strlit("0");
    reveal_strlit("1");
    reveal_strlit("2");
    reveal_strlit("3");
    reveal_strlit("4");
    reveal_strlit("5");
    reveal_strlit("6");
    reveal_strlit("7");
    reveal_strlit("8");
    reveal_strlit("9");
}

/// The digits of `n` are digits, at least one of them, and read back as `n`.
pub proof fn lemma_digits_read_back(n: nat)
    ensures
        digits(n).len() >= 1,
        all_digits(digits(n)),
        no_bar(digits(n)),
        digits_value(digits(n)) == Some(n),
    decreases n,
{
    if n < 10 {
        lemma_digit_text(n as int);
    } else {
        lemma_digits_read_back(n / 10);
        lemma_digit_text((n % 10) as int);
        let a = digits(n / 10);
        let s = digits(n);
        assert(s == a + digit_text((n % 10) as int));
        assert(s.drop_last() =~= a);
        assert(s.last() == digit_text((n % 10) as int)[0]);
        assert(all_digits(s)) by {
            assert forall|i: int| 0 <= i < s.len() implies '0' <= #[trigger] s[i] && s[i] <= '9' by {
                if i < a.len() {
                    assert(s[i] == a[i]);
                }
            }
        }
    }
}

proof fn lemma_fields_nonempty(s: Seq<char>)
    ensures
        bar_fields(s).len() >= 1,
    decreases s.len(),
{
    if s.len() > 0 {
        lemma_fields_nonempty(s.drop_last());
    }
}

proof fn lemma_fields_of_plain(a: Seq<char>)
    requires
        no_bar(a),
    ensures
        bar_fields(a) == seq![a],
    decreases a.len(),
{
    if a.len() > 0 {
        let b = a.drop_last();
        assert(no_bar(b)) by {
            assert forall|i: int| 0 <= i < b.len() implies #[trigger] b[i] != '|' by {
                assert(b[i] == a[i]);
            }
        }
        lemma_fields_of_plain(b);
        assert(a.last() != '|');
        assert(b.push(a.last()) =~= a);
        assert(seq![b].update(0, b.push(a.last())) =~= seq![a]);
    } else {
        assert(a =~= Seq::<char>::empty());
    }
}

proof fn lemma_fields_push(a: Seq<char>, b: Seq<char>)
    requires
        no_bar(b),
    ensures
        bar_fields(a + "|"@ + b) == bar_fields(a).push(b),
    decreases b.len(),
{
    reveal_strlit("|");
    let s = a + "|"@ + b;
    if b.len() == 0 {
        assert(s.drop_last() =~= a);
        assert(s.last() == '|');
        assert(b =~= Seq::<char>::empty());
    } else {
        let b1 = b.drop_last();
        assert forall|i: int| 0 <= i < b1.len() implies #[trigger] b1[i] != '|' by {
            assert(b1[i] == b[i]);
        }
        lemma_fields_push(a, b1);
        assert(s.drop_last() =~= a + "|"@ + b1);
        assert(s.last() == b.last());
        assert(b.last() != '|');
        let p = bar_fields(a).push(b1);
        assert(p.update(p.len() - 1, p.last().push(b.last())) =~= bar_fields(a).push(b)) by {
            assert(b1.push(b.last()) =~= b);
        }
    }
}

/// Fields without `|` joined with `|` split back into the same fields.
pub proof fn lemma_fields_of_join(fs: Seq<Seq<char>>)
    requires
        fs.len() >= 1,
        forall|i: int| 0 <= i < fs.len() ==> no_bar(#[trigger] fs[i]),
    ensures
        bar_fields(join_bar(fs)) == fs,
    decreases fs.len(),
{
    if fs.len() == 1 {
        lemma_fields_of_plain(fs[0]);
        assert(seq![fs[0]] =~= fs);
    } else {
        let rest = fs.drop_last();
        assert forall|i: int| 0 <= i < rest.len() implies no_bar(#[trigger] rest[i]) by {
            assert(rest[i] == fs[i]);
        }
        lemma_fields_of_join(rest);
        assert(no_bar(fs[fs.len() - 1]));
        lemma_fields_push(join_bar(rest), fs.last());
        assert(rest.push(fs.last()) =~= fs);
    }
}

/// Joining texts without `|` gives a text without `|`.
pub proof fn lemma_no_bar_add(a: Seq<char>, b: Seq<char>)
    requires
        no_bar(a),
        no_bar(b),
    ensures
        no_bar(a + b),
{
    assert forall|i: int| 0 <= i < (a + b).len() implies #[trigger] (a + b)[i] != '|' by {
        if i < a.len() {
            assert((a + b)[i] == a[i]);
        } else {
            assert((a + b)[i] == b[i - a.len()]);
        }
    }
}

proof fn lemma_zeros_no_bar(n: nat)
    ensures
        no_bar(zeros(n)),
    decreases n,
{
    if n > 0 {
        lemma_zeros_no_bar((n - 1) as nat);
        let z = zeros((n - 1) as nat);
        assert forall|i: int| 0 <= i < zeros(n).len() implies #[trigger] zeros(n)[i] != '|' by {
            if i < z.len() {
                assert(zeros(n)[i] == z[i]);
            }
        }
    }
}

proof fn lemma_trim_no_bar(s: Seq<char>)
    requires
        no_bar(s),
    ensures
        no_bar(trim_zeros(s)),
    decreases s.len(),
{
    if s.len() > 0 && s.last() == '0' {
        let b = s.drop_last();
        assert forall|i: int| 0 <= i < b.len() implies #[trigger] b[i] != '|' by {
            assert(b[i] == s[i]);
        }
        lemma_trim_no_bar(b);
    }
}

/// The text of an integer holds no `|`.
pub proof fn lemma_int_text_no_bar(n: int)
    ensures
        no_bar(int_text(n)),
{
    reveal_strlit("-");
    if n < 0 {
        lemma_digits_read_back((-n) as nat);
        lemma_no_bar_add("-"@, digits((-n) as nat));
    } else {
        lemma_digits_read_back(n as nat);
    }
}

/// Zero-padded digits with their trailing zeros trimmed hold no `|`.
pub proof fn lemma_fraction_no_bar(n: nat, width: nat)
    ensures
        no_bar(trim_zeros(zero_padded(digits(n), width))),
{
    lemma_digits_read_back(n);
    if digits(n).len() < width {
        lemma_zeros_no_bar((width - digits(n).len()) as nat);
        lemma_no_bar_add(zeros((width - digits(n).len()) as nat), digits(n));
    }
    lemma_trim_no_bar(zero_padded(digits(n), width));
}

/// `true` and `false` hold no `|`.
pub proof fn lemma_bool_text_no_bar(b: bool)
    ensures
        no_bar(bool_text(b)),
{
    reveal_strlit("true");
    reveal_strlit("false");
}

/// An optional text holds no `|` when its value holds none.
pub proof fn lemma_option_text_no_bar(o: Option<Seq<char>>)
    requires
        o matches Some(t) ==> no_bar(t),
    ensures
        no_bar(option_text(o)),
{
    reveal_strlit("Some(");
    reveal_strlit(")");
    reveal_strlit("None");
    if let Some(t) = o {
        lemma_no_bar_add("Some("@, t);
        lemma_no_bar_add("Some("@ + t, ")"@);
    }
}

} // verus!
