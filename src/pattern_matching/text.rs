//! Text of terms: `Vector(e1:2, e2:3)`, blades written `e1e2:4`.
use vstd::prelude::*;
use vstd::string::*;
use crate::ga_term::{
    blade_entry, bivector_entry, trivector_entry, vector_entry, BladeTerm, Entry, GATerm, Index,
};

verus! {

pub open spec fn digit_char(d: int) -> char {
    seq!['0', '1', '2', '3', '4', '5', '6', '7', '8', '9'][d]
}

/// Decimal digits of a natural number, most significant first.
pub open spec fn digits(n: nat) -> Seq<char>
    decreases n,
{
    if n < 10 {
        seq![digit_char(n as int)]
    } else {
        digits(n / 10).push(digit_char((n % 10) as int))
    }
}

/// Decimal text of an integer, with a leading `-` when negative.
pub open spec fn decimal(i: int) -> Seq<char> {
    if i < 0 {
        seq!['-'] + digits((-i) as nat)
    } else {
        digits(i as nat)
    }
}

fn digit_text(d: u64) -> (r: &'static str)
    requires
        d < 10,
    ensures
        r@ == seq![digit_char(d as int)],
{
    proof {
        reveal_strlit("0");
        reveal_strlit("1");
        reveal_strlit("2");
        reveal_strlit("3");
        reveal_strlit("4");
        reveal_strlit("5");
        reveal_strlit("6");
        reveal_strlit("7");
        reveal_strlit("8");
        reveal_strlit("9");
    }
    match d {
        0 => "0",
        1 => "1",
        2 => "2",
        3 => "3",
        4 => "4",
        5 => "5",
        6 => "6",
        7 => "7",
        8 => "8",
        _ => "9",
    }
}

/// Append the decimal text of `i`.
pub fn push_decimal(s: &mut String, i: Index)
    ensures
        final(s)@ == old(s)@ + decimal(i as int),
{
    let wide: i64 = i as i64;
    if wide < 0 {
        proof { reveal_strlit("-"); }
        s.append("-");
    }
    let ghost start = s@;
    let n0: u64 = if wide < 0 { (-wide) as u64 } else { wide as u64 };
    let mut n: u64 = n0;
    let mut low: Vec<&'static str> = Vec::new();
    let ghost mut tail: Seq<char> = Seq::empty();
    while n >= 10
        invariant
            n >= 1 || n0 == 0,
            n <= n0,
            digits(n0 as nat) == digits(n as nat) + tail,
            tail.len() == low.len(),
            forall|q: int| 0 <= q < low.len() ==> (#[trigger] low@[q])@ == seq![tail[tail.len() - 1 - q]],
        decreases n,
    {
        let d = n % 10;
        let t = digit_text(d);
        proof {
            assert(digits(n as nat) == digits((n / 10) as nat).push(digit_char(d as int)));
            assert(digits(n as nat) + tail =~= digits((n / 10) as nat) + (seq![digit_char(d as int)] + tail));
            tail = seq![digit_char(d as int)] + tail;
        }
        low.push(t);
        n = n / 10;
    }
    s.append(digit_text(n));
    assert(digits(n as nat) == seq![digit_char(n as int)]);
    let mut j: usize = low.len();
    while j > 0
        invariant
            j <= low.len(),
            tail.len() == low.len(),
            forall|q: int| 0 <= q < low.len() ==> (#[trigger] low@[q])@ == seq![tail[tail.len() - 1 - q]],
            s@ == start + digits(n as nat) + tail.take(low.len() - j),
        decreases j,
    {
        j -= 1;
        s.append(low[j]);
        proof {
            let k = low.len() - 1 - j;
            assert(tail.take(k + 1) =~= tail.take(k as int) + seq![tail[k as int]]);
            assert(s@ =~= start + digits(n as nat) + tail.take(k + 1));
        }
    }
    assert(tail.take(low.len() as int) =~= tail);
    proof {
        if wide < 0 {
            assert((-(i as int)) as nat == n0 as nat);
        } else {
            assert(i as int == n0 as int);
        }
        assert(old(s)@ + decimal(i as int) =~= s@);
    }
}

/// Text of a blade key: `e<i>` for each basis index, in order.
pub open spec fn key_text(k: Seq<Index>) -> Seq<char>
    decreases k.len(),
{
    if k.len() == 0 {
        Seq::empty()
    } else {
        key_text(k.drop_last()) + "e"@ + decimal(k.last() as int)
    }
}

/// Text of one coefficient entry: its key, a colon, its coefficient.
pub open spec fn entry_text(e: Entry<String>) -> Seq<char> {
    key_text(e.0) + ":"@ + e.1@
}

/// The parts separated by `, `.
pub open spec fn joined(parts: Seq<Seq<char>>) -> Seq<char>
    decreases parts.len(),
{
    if parts.len() == 0 {
        Seq::empty()
    } else if parts.len() == 1 {
        parts[0]
    } else {
        joined(parts.drop_last()) + ", "@ + parts.last()
    }
}

/// Text of a term whose coefficients are already text.
pub open spec fn rendered(term: GATerm<String>) -> Seq<char> {
    let body = joined(term.entries().map_values(|e: Entry<String>| entry_text(e)));
    match term {
        GATerm::Scalar(s) => "Scalar("@ + s.value@ + ")"@,
        GATerm::Vector(_) => "Vector("@ + body + ")"@,
        GATerm::Bivector(_) => "Bivector("@ + body + ")"@,
        GATerm::Trivector(_) => "Trivector("@ + body + ")"@,
        GATerm::Multivector(_) => "Multivector("@ + body + ")"@,
    }
}

proof fn lemma_joined_step(parts: Seq<Seq<char>>, i: int)
    requires
        0 <= i < parts.len(),
    ensures
        joined(parts.take(i + 1)) == if i == 0 {
            parts[0]
        } else {
            joined(parts.take(i)) + ", "@ + parts[i]
        },
{
    assert(parts.take(i + 1).drop_last() =~= parts.take(i));
}

proof fn lemma_key_text_push(k: Seq<Index>, i: Index)
    ensures
        key_text(k.push(i)) == key_text(k) + "e"@ + decimal(i as int),
{
    assert(k.push(i).drop_last() =~= k);
}

/// Append `e<i>`.
fn push_index(s: &mut String, i: Index)
    ensures
        final(s)@ == old(s)@ + "e"@ + decimal(i as int),
{
    s.append("e");
    push_decimal(s, i);
}

/// Append the key text of a blade.
fn push_key(s: &mut String, k: &Vec<Index>)
    ensures
        final(s)@ == old(s)@ + key_text(k@),
{
    let ghost start = s@;
    let mut j: usize = 0;
    assert(k@.take(0) =~= Seq::<Index>::empty());
    while j < k.len()
        invariant
            j <= k.len(),
            s@ == start + key_text(k@.take(j as int)),
        decreases k.len() - j,
    {
        push_index(s, k[j]);
        proof {
            assert(k@.take(j + 1).drop_last() =~= k@.take(j as int));
            assert(s@ =~= start + key_text(k@.take(j + 1)));
        }
        j += 1;
    }
    assert(k@.take(k.len() as int) =~= k@);
}

/// Render a term whose coefficients are already text, as in
/// `Vector(e1:2, e2:3)` or `Scalar(3.14)`.
pub fn render(term: &GATerm<String>) -> (r: String)
    ensures
        r@ == rendered(*term),
{
    match term {
        GATerm::Scalar(s) => {
            let mut r = String::new();
            r.append("Scalar(");
            r.append(s.value.as_str());
            r.append(")");
            r
        }
        GATerm::Vector(v) => {
            let ghost parts = term.entries().map_values(|e: Entry<String>| entry_text(e));
            let mut r = String::new();
            r.append("Vector(");
            let ghost start = r@;
            let mut i: usize = 0;
            assert(parts.take(0) =~= Seq::<Seq<char>>::empty());
            while i < v.len()
                invariant
                    i <= v.len(),
                    parts == term.entries().map_values(|e: Entry<String>| entry_text(e)),
                    term.entries() == v@.map_values(|e: (Index, String)| vector_entry(e)),
                    start == "Vector("@,
                    r@ == start + joined(parts.take(i as int)),
                decreases v.len() - i,
            {
                if i > 0 {
                    r.append(", ");
                }
                let e = &v[i];
                push_index(&mut r, e.0);
                r.append(":");
                r.append(e.1.as_str());
                proof {
                    assert(term.entries()[i as int] == vector_entry(v@[i as int]));
                    lemma_key_text_push(Seq::empty(), e.0);
                    assert(Seq::<Index>::empty().push(e.0) =~= seq![e.0]);
                    assert(parts[i as int] == key_text(seq![e.0]) + ":"@ + e.1@);
                    lemma_joined_step(parts, i as int);
                    assert(r@ =~= start + joined(parts.take(i + 1)));
                }
                i += 1;
            }
            r.append(")");
            assert(parts.take(v.len() as int) =~= parts);
            r
        }
        GATerm::Bivector(v) => {
            let ghost parts = term.entries().map_values(|e: Entry<String>| entry_text(e));
            let mut r = String::new();
            r.append("Bivector(");
            let ghost start = r@;
            let mut i: usize = 0;
            assert(parts.take(0) =~= Seq::<Seq<char>>::empty());
            while i < v.len()
                invariant
                    i <= v.len(),
                    parts == term.entries().map_values(|e: Entry<String>| entry_text(e)),
                    term.entries() == v@.map_values(|e: (Index, Index, String)| bivector_entry(e)),
                    start == "Bivector("@,
                    r@ == start + joined(parts.take(i as int)),
                decreases v.len() - i,
            {
                if i > 0 {
                    r.append(", ");
                }
                let e = &v[i];
                push_index(&mut r, e.0);
                push_index(&mut r, e.1);
                r.append(":");
                r.append(e.2.as_str());
                proof {
                    assert(term.entries()[i as int] == bivector_entry(v@[i as int]));
                    lemma_key_text_push(Seq::empty(), e.0);
                    assert(Seq::<Index>::empty().push(e.0) =~= seq![e.0]);
                    lemma_key_text_push(seq![e.0], e.1);
                    assert(seq![e.0].push(e.1) =~= seq![e.0, e.1]);
                    assert(parts[i as int] == key_text(seq![e.0, e.1]) + ":"@ + e.2@);
                    lemma_joined_step(parts, i as int);
                    assert(r@ =~= start + joined(parts.take(i + 1)));
                }
                i += 1;
            }
            r.append(")");
            assert(parts.take(v.len() as int) =~= parts);
            r
        }
        GATerm::Trivector(v) => {
            let ghost parts = term.entries().map_values(|e: Entry<String>| entry_text(e));
            let mut r = String::new();
            r.append("Trivector(");
            let ghost start = r@;
            let mut i: usize = 0;
            assert(parts.take(0) =~= Seq::<Seq<char>>::empty());
            while i < v.len()
                invariant
                    i <= v.len(),
                    parts == term.entries().map_values(|e: Entry<String>| entry_text(e)),
                    term.entries() == v@.map_values(|e: (Index, Index, Index, String)| trivector_entry(e)),
                    start == "Trivector("@,
                    r@ == start + joined(parts.take(i as int)),
                decreases v.len() - i,
            {
                if i > 0 {
                    r.append(", ");
                }
                let e = &v[i];
                push_index(&mut r, e.0);
                push_index(&mut r, e.1);
                push_index(&mut r, e.2);
                r.append(":");
                r.append(e.3.as_str());
                proof {
                    assert(term.entries()[i as int] == trivector_entry(v@[i as int]));
                    lemma_key_text_push(Seq::empty(), e.0);
                    assert(Seq::<Index>::empty().push(e.0) =~= seq![e.0]);
                    lemma_key_text_push(seq![e.0], e.1);
                    assert(seq![e.0].push(e.1) =~= seq![e.0, e.1]);
                    lemma_key_text_push(seq![e.0, e.1], e.2);
                    assert(seq![e.0, e.1].push(e.2) =~= seq![e.0, e.1, e.2]);
                    assert(parts[i as int] == key_text(seq![e.0, e.1, e.2]) + ":"@ + e.3@);
                    lemma_joined_step(parts, i as int);
                    assert(r@ =~= start + joined(parts.take(i + 1)));
                }
                i += 1;
            }
            r.append(")");
            assert(parts.take(v.len() as int) =~= parts);
            r
        }
        GATerm::Multivector(v) => {
            let ghost parts = term.entries().map_values(|e: Entry<String>| entry_text(e));
            let mut r = String::new();
            r.append("Multivector(");
            let ghost start = r@;
            let mut i: usize = 0;
            assert(parts.take(0) =~= Seq::<Seq<char>>::empty());
            while i < v.len()
                invariant
                    i <= v.len(),
                    parts == term.entries().map_values(|e: Entry<String>| entry_text(e)),
                    term.entries() == v@.map_values(|e: BladeTerm<String>| blade_entry(e)),
                    start == "Multivector("@,
                    r@ == start + joined(parts.take(i as int)),
                decreases v.len() - i,
            {
                if i > 0 {
                    r.append(", ");
                }
                let e = &v[i];
                push_key(&mut r, &e.indices);
                r.append(":");
                r.append(e.coefficient.as_str());
                proof {
                    assert(term.entries()[i as int] == blade_entry(v@[i as int]));
                    assert(parts[i as int] == key_text(e.indices@) + ":"@ + e.coefficient@);
                    lemma_joined_step(parts, i as int);
                    assert(r@ =~= start + joined(parts.take(i + 1)));
                }
                i += 1;
            }
            r.append(")");
            assert(parts.take(v.len() as int) =~= parts);
            r
        }
    }
}

} // verus!
