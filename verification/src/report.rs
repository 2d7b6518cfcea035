//! The reporter: renders a finished scan aggregate as a human-readable
//! pair of tables and as a delimited export record. Pure formatting over a
//! read-only aggregate; every piece of text is pinned down exactly.

use crate::types::{spec_rows_count, NamespaceStats, ScanResult};
use vstd::multiset::Multiset;
use vstd::prelude::*;

verus! {

/// The decimal digit characters.
pub open spec fn digit_char(d: int) -> char {
    if d == 0 {
        '0'
    } else if d == 1 {
        '1'
    } else if d == 2 {
        '2'
    } else if d == 3 {
        '3'
    } else if d == 4 {
        '4'
    } else if d == 5 {
        '5'
    } else if d == 6 {
        '6'
    } else if d == 7 {
        '7'
    } else if d == 8 {
        '8'
    } else {
        '9'
    }
}

/// The usual decimal rendering of a number: most significant digit first,
/// no leading zero except on zero itself.
pub open spec fn spec_dec(n: nat) -> Seq<char>
    decreases n,
{
    if n < 10 {
        seq![digit_char(n as int)]
    } else {
        spec_dec(n / 10) + seq![digit_char((n % 10) as int)]
    }
}

/// The one-character string of a decimal digit.
fn digit_str(d: usize) -> (r: &'static str)
    requires
        d < 10,
    ensures
        r@ == seq![digit_char(d as int)],
{
    let r: &'static str = if d == 0 {
        "0"
    } else if d == 1 {
        "1"
    } else if d == 2 {
        "2"
    } else if d == 3 {
        "3"
    } else if d == 4 {
        "4"
    } else if d == 5 {
        "5"
    } else if d == 6 {
        "6"
    } else if d == 7 {
        "7"
    } else if d == 8 {
        "8"
    } else {
        "9"
    };
    proof {
        reveal_strlit("0");
        reveal_strlit("1");
        reveal_strlit("2");
        reveal_strlit("3");
        reveal_strlit("4");
        reveal_strlit("5");
        reveal_strlit("6");
        reveal_strlit("7");
        reveal_strlit("8");
        reveal_strlit("9");
        assert(r@ =~= seq![digit_char(d as int)]);
    }
    r
}

/// Renders a count in decimal.
pub fn usize_to_string(n: usize) -> (s: String)
    ensures
        s@ == spec_dec(n as nat),
    decreases n,
{
    if n < 10 {
        String::from_str(digit_str(n))
    } else {
        let mut s = usize_to_string(n / 10);
        s.append(digit_str(n % 10));
        s
    }
}

/// Renders a second count in decimal.
pub fn u64_to_string(n: u64) -> (s: String)
    ensures
        s@ == spec_dec(n as nat),
    decreases n,
{
    if n < 10 {
        String::from_str(digit_str(n as usize))
    } else {
        let mut s = u64_to_string(n / 10);
        s.append(digit_str((n % 10) as usize));
        s
    }
}

/// A run of spaces.
pub open spec fn spec_spaces(n: int) -> Seq<char>
    decreases n,
{
    if n <= 0 {
        Seq::empty()
    } else {
        spec_spaces(n - 1).push(' ')
    }
}

/// Text padded on the right with spaces up to the column width; text at or
/// over the width stays as it is.
pub open spec fn spec_pad_right(s: Seq<char>, width: int) -> Seq<char> {
    s + spec_spaces(width - s.len())
}

/// Pads text on the right to the column width.
pub fn pad_right(s: &str, width: usize) -> (r: String)
    ensures
        r@ == spec_pad_right(s@, width as int),
{
    proof {
        reveal_strlit(" ");
    }
    let mut r = String::from_str(s);
    let len = s.unicode_len();
    if len >= width {
        proof {
            assert(spec_spaces(width - s@.len()) =~= Seq::<char>::empty());
            assert(r@ =~= spec_pad_right(s@, width as int));
        }
        return r;
    }
    let mut i = len;
    while i < width
        invariant
            len <= i <= width,
            len == s@.len(),
            r@ == s@ + spec_spaces(i - len),
        decreases width - i,
    {
        r.append(" ");
        proof {
            reveal_strlit(" ");
            assert(" "@ =~= seq![' ']);
            assert(s@ + spec_spaces(i - len) + seq![' '] =~= s@ + spec_spaces(i + 1 - len));
        }
        i = i + 1;
    }
    r
}

/// The match ratio in tenths of a percent — rounded to the nearest tenth,
/// halves up — and zero when nothing was probed.
pub open spec fn spec_ratio_permille(jdk: nat, total: nat) -> int {
    if total == 0 {
        0
    } else {
        ((2000 * jdk + total) / (2 * total)) as int
    }
}

/// Computes the match ratio in tenths of a percent.
pub fn ratio_permille(jdk: usize, total: usize) -> (r: usize)
    requires
        jdk <= total,
    ensures
        r == spec_ratio_permille(jdk as nat, total as nat),
        r <= 1000,
{
    if total == 0 {
        0
    } else {
        let num: u128 = 2000u128 * (jdk as u128) + (total as u128);
        let den: u128 = 2u128 * (total as u128);
        let q: u128 = num / den;
        proof {
            assert(q * den + num % den == num) by (nonlinear_arith)
                requires
                    den > 0,
                    q == num / den,
            ;
            assert(q <= 1000) by (nonlinear_arith)
                requires
                    q * den <= num,
                    num <= 2001 * (total as u128),
                    den == 2 * (total as u128),
                    total > 0,
            ;
        }
        q as usize
    }
}

/// The ratio as printed: one decimal place and a percent sign.
pub open spec fn spec_ratio_string(jdk: nat, total: nat) -> Seq<char> {
    let p = spec_ratio_permille(jdk, total);
    spec_dec((p / 10) as nat) + "."@ + seq![digit_char(p % 10)] + "%"@
}

/// Renders the match ratio as a percentage with one decimal place.
pub fn ratio_string(jdk: usize, total: usize) -> (s: String)
    requires
        jdk <= total,
    ensures
        s@ == spec_ratio_string(jdk as nat, total as nat),
{
    let p = ratio_permille(jdk, total);
    let mut s = usize_to_string(p / 10);
    s.append(".");
    s.append(digit_str(p % 10));
    s.append("%");
    s
}

/// Lexicographic text order, decided at position `i` onward: a shorter
/// text precedes every extension of itself, and otherwise the first
/// differing character decides by its code point.
pub open spec fn str_le_from(a: Seq<char>, b: Seq<char>, i: int) -> bool
    decreases a.len() - i,
{
    if i >= a.len() {
        true
    } else if i >= b.len() {
        false
    } else if (a[i] as u32) == (b[i] as u32) {
        str_le_from(a, b, i + 1)
    } else {
        (a[i] as u32) < (b[i] as u32)
    }
}

/// Lexicographic text order, whole texts.
pub open spec fn spec_str_le(a: Seq<char>, b: Seq<char>) -> bool {
    str_le_from(a, b, 0)
}

/// Any two texts are ordered one way or the other.
pub proof fn lemma_str_le_total(a: Seq<char>, b: Seq<char>, i: int)
    requires
        0 <= i,
    ensures
        str_le_from(a, b, i) || str_le_from(b, a, i),
    decreases a.len() - i,
{
    if i >= a.len() || i >= b.len() {
    } else if (a[i] as u32) == (b[i] as u32) {
        lemma_str_le_total(a, b, i + 1);
    }
}

/// Lexicographic order is transitive.
pub proof fn lemma_str_le_trans(a: Seq<char>, b: Seq<char>, c: Seq<char>, i: int)
    requires
        0 <= i,
        str_le_from(a, b, i),
        str_le_from(b, c, i),
    ensures
        str_le_from(a, c, i),
    decreases a.len() - i,
{
    if i >= a.len() {
    } else if i >= b.len() || i >= c.len() {
    } else if (a[i] as u32) == (b[i] as u32) && (b[i] as u32) == (c[i] as u32) {
        lemma_str_le_trans(a, b, c, i + 1);
    }
}

/// Decides the lexicographic order of two texts.
pub fn str_le(a: &str, b: &str) -> (r: bool)
    ensures
        r == spec_str_le(a@, b@),
{
    let na = a.unicode_len();
    let nb = b.unicode_len();
    let mut i: usize = 0;
    while i < na
        invariant
            na == a@.len(),
            nb == b@.len(),
            i <= na,
            i <= nb,
            spec_str_le(a@, b@) == str_le_from(a@, b@, i as int),
        decreases na - i,
    {
        if i >= nb {
            return false;
        }
        let ca = a.get_char(i) as u32;
        let cb = b.get_char(i) as u32;
        if ca != cb {
            return ca < cb;
        }
        i = i + 1;
    }
    true
}

/// The summary entries stand in lexicographic namespace order.
pub open spec fn spec_sorted_by_ns(s: Seq<(String, NamespaceStats)>) -> bool {
    forall|i: int, j: int| 0 <= i < j < s.len() ==> spec_str_le(s[i].0@, s[j].0@)
}

/// Orders the per-namespace summary entries lexicographically by
/// namespace name, keeping exactly the entries given.
pub fn sort_by_namespace(v: Vec<(String, NamespaceStats)>) -> (r: Vec<(String, NamespaceStats)>)
    ensures
        spec_sorted_by_ns(r@),
        r@.to_multiset() == v@.to_multiset(),
        r@.len() == v@.len(),
        forall|k: int| 0 <= k < r@.len() ==> v@.contains(#[trigger] r@[k]),
{
    broadcast use vstd::seq_lib::group_to_multiset_ensures;
    broadcast use vstd::multiset::group_multiset_axioms;

    let mut rest = v;
    let mut r: Vec<(String, NamespaceStats)> = Vec::new();
    let ghost all = rest@;
    proof {
        assert forall|k: int| 0 <= k < rest@.len() implies all.contains(#[trigger] rest@[k]) by {
            assert(all[k] == rest@[k]);
        }
    }
    while rest.len() > 0
        invariant
            all == v@,
            spec_sorted_by_ns(r@),
            forall|i: int, j: int|
                0 <= i < r@.len() && 0 <= j < rest@.len() ==> spec_str_le(
                    r@[i].0@,
                    rest@[j].0@,
                ),
            r@.to_multiset().add(rest@.to_multiset()) == v@.to_multiset(),
            r@.len() + rest@.len() == v@.len(),
            forall|k: int| 0 <= k < r@.len() ==> all.contains(#[trigger] r@[k]),
            forall|k: int| 0 <= k < rest@.len() ==> all.contains(#[trigger] rest@[k]),
        decreases rest@.len(),
    {
        let mut m: usize = 0;
        let mut k: usize = 1;
        proof {
            lemma_str_le_total(rest@[0].0@, rest@[0].0@, 0);
        }
        while k < rest.len()
            invariant
                rest@.len() > 0,
                m < rest@.len(),
                k <= rest@.len(),
                forall|t: int| 0 <= t < k ==> spec_str_le(rest@[m as int].0@, rest@[t].0@),
            decreases rest@.len() - k,
        {
            if !str_le(rest[m].0.as_str(), rest[k].0.as_str()) {
                proof {
                    lemma_str_le_total(rest@[m as int].0@, rest@[k as int].0@, 0);
                    assert forall|t: int|
                        0 <= t < k + 1 implies spec_str_le(rest@[k as int].0@, rest@[t].0@) by {
                        if t < k {
                            lemma_str_le_trans(rest@[k as int].0@, rest@[m as int].0@, rest@[t].0@, 0);
                        } else {
                            lemma_str_le_total(rest@[k as int].0@, rest@[k as int].0@, 0);
                        }
                    }
                }
                m = k;
            }
            k = k + 1;
        }
        let ghost prev_r = r@;
        let ghost prev_rest = rest@;
        let picked = rest.remove(m);
        r.push(picked);
        proof {
            assert(prev_rest.contains(prev_rest[m as int]));
            vstd::seq_lib::to_multiset_contains(prev_rest, picked);
            assert(prev_rest.to_multiset().count(picked) > 0);
            assert(r@ == prev_r.push(picked));
            vstd::seq_lib::to_multiset_build(prev_r, picked);
            assert(prev_r.push(picked).to_multiset() =~= prev_r.to_multiset().insert(picked));
            assert(rest@ == prev_rest.remove(m as int));
            vstd::seq_lib::to_multiset_remove(prev_rest, m as int);
            assert(prev_rest.remove(m as int).to_multiset() =~= prev_rest.to_multiset().remove(
                prev_rest[m as int],
            ));
            assert(r@.to_multiset().add(rest@.to_multiset()) =~= prev_r.to_multiset().add(
                prev_rest.to_multiset(),
            ));
            assert forall|i: int, j: int|
                0 <= i < j < r@.len() implies spec_str_le(r@[i].0@, r@[j].0@) by {
                if j < prev_r.len() {
                    assert(r@[i] == prev_r[i] && r@[j] == prev_r[j]);
                } else {
                    assert(r@[j] == picked);
                    if i < prev_r.len() {
                        assert(spec_str_le(prev_r[i].0@, prev_rest[m as int].0@));
                    }
                }
            }
            assert forall|i: int, j: int|
                0 <= i < r@.len() && 0 <= j < rest@.len() implies spec_str_le(
                r@[i].0@,
                rest@[j].0@,
            ) by {
                let jj = if j < m { j } else { j + 1 };
                assert(rest@[j] == prev_rest[jj]);
                if i < prev_r.len() {
                    assert(spec_str_le(prev_r[i].0@, prev_rest[jj].0@));
                } else {
                    assert(r@[i] == picked);
                    assert(spec_str_le(prev_rest[m as int].0@, prev_rest[jj].0@));
                }
            }
            assert forall|k: int| 0 <= k < rest@.len() implies all.contains(
                #[trigger] rest@[k],
            ) by {
                let kk = if k < m { k } else { k + 1 };
                assert(rest@[k] == prev_rest[kk]);
            }
        }
    }
    proof {
        vstd::multiset::lemma_multiset_empty_len(rest@.to_multiset());
        assert(rest@.to_multiset() =~= Multiset::<(String, NamespaceStats)>::empty());
        assert(r@.to_multiset() =~= r@.to_multiset().add(rest@.to_multiset()));
    }
    r
}

/// The larger of two widths.
pub open spec fn spec_max(a: int, b: int) -> int {
    if a >= b {
        a
    } else {
        b
    }
}

/// One namespace's (namespace, pod, version) triples, in entry order.
pub open spec fn spec_flat_ns(ns: Seq<char>, entries: Seq<(String, String)>) -> Seq<
    (Seq<char>, Seq<char>, Seq<char>),
> {
    entries.map_values(|p: (String, String)| (ns, p.0@, p.1@))
}

/// The whole mapping flattened to (namespace, pod, version) triples, one
/// namespace after the other in scan order.
pub open spec fn spec_flat(pv: Seq<(String, Vec<(String, String)>)>) -> Seq<
    (Seq<char>, Seq<char>, Seq<char>),
>
    decreases pv.len(),
{
    if pv.len() == 0 {
        Seq::empty()
    } else {
        spec_flat(pv.drop_last()) + spec_flat_ns(pv.last().0@, pv.last().1@)
    }
}

/// The views of an executable triple list.
pub open spec fn spec_triples_view(s: Seq<(String, String, String)>) -> Seq<
    (Seq<char>, Seq<char>, Seq<char>),
> {
    s.map_values(|t: (String, String, String)| (t.0@, t.1@, t.2@))
}

/// Flattens the pod-to-version mapping into one row per matched pod, each
/// carrying its namespace, in scan order.
pub fn flatten_rows(pv: &Vec<(String, Vec<(String, String)>)>) -> (rows: Vec<
    (String, String, String),
>)
    ensures
        spec_triples_view(rows@) == spec_flat(pv@),
{
    let mut rows: Vec<(String, String, String)> = Vec::new();
    let mut i: usize = 0;
    proof {
        assert(pv@.subrange(0, 0) =~= Seq::<(String, Vec<(String, String)>)>::empty());
        assert(spec_triples_view(rows@) =~= spec_flat(pv@.subrange(0, 0)));
    }
    while i < pv.len()
        invariant
            i <= pv@.len(),
            spec_triples_view(rows@) == spec_flat(pv@.subrange(0, i as int)),
        decreases pv@.len() - i,
    {
        let entry = &pv[i];
        let ghost entries = entry.1@;
        let mut j: usize = 0;
        proof {
            assert(entries.subrange(0, 0) =~= Seq::<(String, String)>::empty());
            assert(spec_flat_ns(entry.0@, entries.subrange(0, 0)) =~= Seq::<
                (Seq<char>, Seq<char>, Seq<char>),
            >::empty());
        }
        while j < entry.1.len()
            invariant
                entries == entry.1@,
                j <= entries.len(),
                i < pv@.len(),
                entry == &pv@[i as int],
                spec_triples_view(rows@) == spec_flat(pv@.subrange(0, i as int)) + spec_flat_ns(
                    entry.0@,
                    entries.subrange(0, j as int),
                ),
            decreases entries.len() - j,
        {
            let ghost prev_rows = rows@;
            let row = &entry.1[j];
            rows.push((entry.0.clone(), row.0.clone(), row.1.clone()));
            proof {
                assert(entries.subrange(0, j as int + 1) =~= entries.subrange(0, j as int).push(
                    entries[j as int],
                ));
                assert(spec_flat_ns(entry.0@, entries.subrange(0, j as int + 1)) =~= spec_flat_ns(
                    entry.0@,
                    entries.subrange(0, j as int),
                ).push((entry.0@, entries[j as int].0@, entries[j as int].1@)));
                assert(spec_triples_view(rows@) =~= spec_triples_view(prev_rows).push(
                    (entry.0@, entries[j as int].0@, entries[j as int].1@),
                ));
            }
            j = j + 1;
        }
        proof {
            assert(entries.subrange(0, entries.len() as int) =~= entries);
            assert(pv@.subrange(0, i as int + 1).drop_last() =~= pv@.subrange(0, i as int));
            assert(pv@.subrange(0, i as int + 1).last() == pv@[i as int]);
        }
        i = i + 1;
    }
    proof {
        assert(pv@.subrange(0, pv@.len() as int) =~= pv@);
    }
    rows
}

/// The width of the index column body: the widest decimal index among
/// `1..=n`, at least the width of the heading.
pub open spec fn spec_w_idx(n: nat, base: int) -> int
    decreases n,
{
    if n == 0 {
        base
    } else {
        spec_max(spec_w_idx((n - 1) as nat, base), spec_dec(n).len() as int)
    }
}

/// The widest namespace cell among the rows, at least `base`.
pub open spec fn spec_w_ns(rows: Seq<(Seq<char>, Seq<char>, Seq<char>)>, base: int) -> int
    decreases rows.len(),
{
    if rows.len() == 0 {
        base
    } else {
        spec_max(spec_w_ns(rows.drop_last(), base), rows.last().0.len() as int)
    }
}

/// The widest pod cell among the rows, at least `base`.
pub open spec fn spec_w_pod(rows: Seq<(Seq<char>, Seq<char>, Seq<char>)>, base: int) -> int
    decreases rows.len(),
{
    if rows.len() == 0 {
        base
    } else {
        spec_max(spec_w_pod(rows.drop_last(), base), rows.last().1.len() as int)
    }
}

/// The widest version cell among the rows, at least `base`.
pub open spec fn spec_w_ver(rows: Seq<(Seq<char>, Seq<char>, Seq<char>)>, base: int) -> int
    decreases rows.len(),
{
    if rows.len() == 0 {
        base
    } else {
        spec_max(spec_w_ver(rows.drop_last(), base), rows.last().2.len() as int)
    }
}

/// One line of the pod table: the four cells padded to their column
/// widths.
pub open spec fn spec_pod_row_line(
    idx: nat,
    row: (Seq<char>, Seq<char>, Seq<char>),
    wi: int,
    wn: int,
    wp: int,
    wv: int,
) -> Seq<char> {
    spec_pad_right(spec_dec(idx), wi) + spec_pad_right(row.0, wn) + spec_pad_right(row.1, wp)
        + spec_pad_right(row.2, wv) + "\n"@
}

/// The pod table's data lines, indices counting on from `start`.
pub open spec fn spec_pod_rows(
    rows: Seq<(Seq<char>, Seq<char>, Seq<char>)>,
    start: nat,
    wi: int,
    wn: int,
    wp: int,
    wv: int,
) -> Seq<char>
    decreases rows.len(),
{
    if rows.len() == 0 {
        Seq::empty()
    } else {
        spec_pod_row_line(start, rows.first(), wi, wn, wp, wv) + spec_pod_rows(
            rows.drop_first(),
            start + 1,
            wi,
            wn,
            wp,
            wv,
        )
    }
}

/// The whole pod table: heading and data lines, with every column as wide
/// as its widest cell plus two spaces of padding.
pub open spec fn spec_pod_table(flat: Seq<(Seq<char>, Seq<char>, Seq<char>)>) -> Seq<char> {
    let wi = 2 + spec_w_idx(flat.len(), 5);
    let wn = 2 + spec_w_ns(flat, 9);
    let wp = 2 + spec_w_pod(flat, 3);
    let wv = 2 + spec_w_ver(flat, 12);
    spec_pad_right("INDEX"@, wi) + spec_pad_right("NAMESPACE"@, wn) + spec_pad_right("POD"@, wp)
        + spec_pad_right("JAVA_VERSION"@, wv) + "\n"@ + spec_pod_rows(flat, 1, wi, wn, wp, wv)
}

/// Whether the pod table's column widths stay representable.
pub open spec fn spec_pod_widths_fit(flat: Seq<(Seq<char>, Seq<char>, Seq<char>)>) -> bool {
    &&& spec_w_idx(flat.len(), 5) + 2 <= usize::MAX
    &&& spec_w_ns(flat, 9) + 2 <= usize::MAX
    &&& spec_w_pod(flat, 3) + 2 <= usize::MAX
    &&& spec_w_ver(flat, 12) + 2 <= usize::MAX
}

/// Renders the table of matched pods: one line per row in scan order,
/// indexed from one, under the heading line.
pub fn pod_table(rows: &Vec<(String, String, String)>) -> (s: String)
    requires
        spec_pod_widths_fit(spec_triples_view(rows@)),
    ensures
        s@ == spec_pod_table(spec_triples_view(rows@)),
{
    let ghost flat = spec_triples_view(rows@);
    let mut wi: usize = 5;
    let mut wn: usize = 9;
    let mut wp: usize = 3;
    let mut wv: usize = 12;
    let mut k: usize = 0;
    proof {
        assert(flat.subrange(0, 0) =~= Seq::<(Seq<char>, Seq<char>, Seq<char>)>::empty());
    }
    while k < rows.len()
        invariant
            flat == spec_triples_view(rows@),
            k <= rows@.len(),
            wi == spec_w_idx(k as nat, 5),
            wn == spec_w_ns(flat.subrange(0, k as int), 9),
            wp == spec_w_pod(flat.subrange(0, k as int), 3),
            wv == spec_w_ver(flat.subrange(0, k as int), 12),
        decreases rows@.len() - k,
    {
        let idx_str = usize_to_string(k + 1);
        let l0 = idx_str.as_str().unicode_len();
        if l0 > wi {
            wi = l0;
        }
        let l1 = rows[k].0.as_str().unicode_len();
        if l1 > wn {
            wn = l1;
        }
        let l2 = rows[k].1.as_str().unicode_len();
        if l2 > wp {
            wp = l2;
        }
        let l3 = rows[k].2.as_str().unicode_len();
        if l3 > wv {
            wv = l3;
        }
        proof {
            assert(flat.subrange(0, k as int + 1).drop_last() =~= flat.subrange(0, k as int));
            assert(flat.subrange(0, k as int + 1).last() == flat[k as int]);
            assert(flat[k as int] == (rows@[k as int].0@, rows@[k as int].1@, rows@[k as int].2@));
        }
        k = k + 1;
    }
    proof {
        assert(flat.subrange(0, flat.len() as int) =~= flat);
    }
    let wi2 = wi + 2;
    let wn2 = wn + 2;
    let wp2 = wp + 2;
    let wv2 = wv + 2;
    let mut s = pad_right("INDEX", wi2);
    let c1 = pad_right("NAMESPACE", wn2);
    s.append(c1.as_str());
    let c2 = pad_right("POD", wp2);
    s.append(c2.as_str());
    let c3 = pad_right("JAVA_VERSION", wv2);
    s.append(c3.as_str());
    s.append("\n");
    let ghost table = spec_pod_table(flat);
    let mut k: usize = 0;
    proof {
        assert(flat.skip(0) =~= flat);
    }
    while k < rows.len()
        invariant
            flat == spec_triples_view(rows@),
            k <= rows@.len(),
            s@ + spec_pod_rows(flat.skip(k as int), (k + 1) as nat, wi2 as int, wn2 as int,
                wp2 as int, wv2 as int) == table,
            table == spec_pod_table(flat),
            wi2 == 2 + spec_w_idx(flat.len(), 5),
            wn2 == 2 + spec_w_ns(flat, 9),
            wp2 == 2 + spec_w_pod(flat, 3),
            wv2 == 2 + spec_w_ver(flat, 12),
        decreases rows@.len() - k,
    {
        proof {
            assert(flat.skip(k as int).first() == flat[k as int]);
            assert(flat.skip(k as int).drop_first() =~= flat.skip(k as int + 1));
            assert(flat[k as int] == (rows@[k as int].0@, rows@[k as int].1@, rows@[k as int].2@));
        }
        let idx_str = usize_to_string(k + 1);
        let p0 = pad_right(idx_str.as_str(), wi2);
        s.append(p0.as_str());
        let p1 = pad_right(rows[k].0.as_str(), wn2);
        s.append(p1.as_str());
        let p2 = pad_right(rows[k].1.as_str(), wp2);
        s.append(p2.as_str());
        let p3 = pad_right(rows[k].2.as_str(), wv2);
        s.append(p3.as_str());
        s.append("\n");
        k = k + 1;
    }
    proof {
        assert(flat.skip(flat.len() as int) =~= Seq::<(Seq<char>, Seq<char>, Seq<char>)>::empty());
        assert(s@ =~= table);
    }
    s
}

/// The widest namespace cell of the summary, at least `base`.
pub open spec fn spec_sw_ns(entries: Seq<(String, NamespaceStats)>, base: int) -> int
    decreases entries.len(),
{
    if entries.len() == 0 {
        base
    } else {
        spec_max(spec_sw_ns(entries.drop_last(), base), entries.last().0@.len() as int)
    }
}

/// The widest probed-count cell of the summary, at least `base`.
pub open spec fn spec_sw_total(entries: Seq<(String, NamespaceStats)>, base: int) -> int
    decreases entries.len(),
{
    if entries.len() == 0 {
        base
    } else {
        spec_max(
            spec_sw_total(entries.drop_last(), base),
            spec_dec(entries.last().1.total_pods as nat).len() as int,
        )
    }
}

/// The widest matched-count cell of the summary, at least `base`.
pub open spec fn spec_sw_jdk(entries: Seq<(String, NamespaceStats)>, base: int) -> int
    decreases entries.len(),
{
    if entries.len() == 0 {
        base
    } else {
        spec_max(
            spec_sw_jdk(entries.drop_last(), base),
            spec_dec(entries.last().1.jdk_pods as nat).len() as int,
        )
    }
}

/// One line of the summary: namespace, probed count, matched count and
/// ratio padded to their column widths, then the shared elapsed time.
pub open spec fn spec_summary_line(
    e: (String, NamespaceStats),
    sn: int,
    st: int,
    sj: int,
    sr: int,
    elapsed_secs: nat,
) -> Seq<char> {
    spec_pad_right(e.0@, sn) + spec_pad_right(spec_dec(e.1.total_pods as nat), st)
        + spec_pad_right(spec_dec(e.1.jdk_pods as nat), sj) + spec_pad_right(
        spec_ratio_string(e.1.jdk_pods as nat, e.1.total_pods as nat),
        sr,
    ) + spec_dec((elapsed_secs / 60) as nat) + "m "@ + spec_dec((elapsed_secs % 60) as nat)
        + "s\n"@
}

/// The summary's data lines, in the order given.
pub open spec fn spec_summary_rows(
    entries: Seq<(String, NamespaceStats)>,
    sn: int,
    st: int,
    sj: int,
    sr: int,
    elapsed_secs: nat,
) -> Seq<char>
    decreases entries.len(),
{
    if entries.len() == 0 {
        Seq::empty()
    } else {
        spec_summary_line(entries.first(), sn, st, sj, sr, elapsed_secs) + spec_summary_rows(
            entries.drop_first(),
            sn,
            st,
            sj,
            sr,
            elapsed_secs,
        )
    }
}

/// The ratio column body width: the heading alone, or the six characters
/// of the widest ratio once any namespace reports.
pub open spec fn spec_sw_ratio(entries: Seq<(String, NamespaceStats)>) -> int {
    if entries.len() == 0 {
        5
    } else {
        6
    }
}

/// The whole summary table: heading and one line per entry of `sorted`,
/// with column widths measured over `all` (the same entries in recording
/// order).
pub open spec fn spec_summary_table(
    all: Seq<(String, NamespaceStats)>,
    sorted: Seq<(String, NamespaceStats)>,
    elapsed_secs: nat,
) -> Seq<char> {
    let sn = 2 + spec_sw_ns(all, 9);
    let st = 2 + spec_sw_total(all, 10);
    let sj = 2 + spec_sw_jdk(all, 8);
    let sr = 2 + spec_sw_ratio(all);
    spec_pad_right("NAMESPACE"@, sn) + spec_pad_right("TOTAL PODS"@, st) + spec_pad_right(
        "JDK PODS"@,
        sj,
    ) + spec_pad_right("RATIO"@, sr) + "TIME\n"@ + spec_summary_rows(
        sorted,
        sn,
        st,
        sj,
        sr,
        elapsed_secs,
    )
}

/// Whether the summary table's column widths stay representable.
pub open spec fn spec_summary_widths_fit(all: Seq<(String, NamespaceStats)>) -> bool {
    &&& spec_sw_ns(all, 9) + 2 <= usize::MAX
    &&& spec_sw_total(all, 10) + 2 <= usize::MAX
    &&& spec_sw_jdk(all, 8) + 2 <= usize::MAX
}

/// Renders the per-namespace summary: widths measured over the entries as
/// recorded, lines in the order of `sorted`.
fn summary_table(
    all: &Vec<(String, NamespaceStats)>,
    sorted: &Vec<(String, NamespaceStats)>,
    elapsed_secs: u64,
) -> (s: String)
    requires
        spec_summary_widths_fit(all@),
        forall|k: int|
            0 <= k < sorted@.len() ==> (#[trigger] sorted@[k]).1.jdk_pods
                <= sorted@[k].1.total_pods,
    ensures
        s@ == spec_summary_table(all@, sorted@, elapsed_secs as nat),
{
    let mut sn: usize = 9;
    let mut st: usize = 10;
    let mut sj: usize = 8;
    let mut k: usize = 0;
    proof {
        assert(all@.subrange(0, 0) =~= Seq::<(String, NamespaceStats)>::empty());
    }
    while k < all.len()
        invariant
            k <= all@.len(),
            sn == spec_sw_ns(all@.subrange(0, k as int), 9),
            st == spec_sw_total(all@.subrange(0, k as int), 10),
            sj == spec_sw_jdk(all@.subrange(0, k as int), 8),
        decreases all@.len() - k,
    {
        let l0 = all[k].0.as_str().unicode_len();
        if l0 > sn {
            sn = l0;
        }
        let t_str = usize_to_string(all[k].1.total_pods);
        let l1 = t_str.as_str().unicode_len();
        if l1 > st {
            st = l1;
        }
        let j_str = usize_to_string(all[k].1.jdk_pods);
        let l2 = j_str.as_str().unicode_len();
        if l2 > sj {
            sj = l2;
        }
        proof {
            assert(all@.subrange(0, k as int + 1).drop_last() =~= all@.subrange(0, k as int));
            assert(all@.subrange(0, k as int + 1).last() == all@[k as int]);
        }
        k = k + 1;
    }
    proof {
        assert(all@.subrange(0, all@.len() as int) =~= all@);
    }
    let sr: usize = if all.len() == 0 {
        5
    } else {
        6
    };
    let sn2 = sn + 2;
    let st2 = st + 2;
    let sj2 = sj + 2;
    let sr2 = sr + 2;
    let mut s = pad_right("NAMESPACE", sn2);
    let c1 = pad_right("TOTAL PODS", st2);
    s.append(c1.as_str());
    let c2 = pad_right("JDK PODS", sj2);
    s.append(c2.as_str());
    let c3 = pad_right("RATIO", sr2);
    s.append(c3.as_str());
    s.append("TIME\n");
    let ghost table = spec_summary_table(all@, sorted@, elapsed_secs as nat);
    let mut k: usize = 0;
    proof {
        assert(sorted@.skip(0) =~= sorted@);
    }
    while k < sorted.len()
        invariant
            k <= sorted@.len(),
            forall|kk: int|
                0 <= kk < sorted@.len() ==> (#[trigger] sorted@[kk]).1.jdk_pods
                    <= sorted@[kk].1.total_pods,
            s@ + spec_summary_rows(sorted@.skip(k as int), sn2 as int, st2 as int, sj2 as int,
                sr2 as int, elapsed_secs as nat) == table,
            table == spec_summary_table(all@, sorted@, elapsed_secs as nat),
            sn2 == 2 + spec_sw_ns(all@, 9),
            st2 == 2 + spec_sw_total(all@, 10),
            sj2 == 2 + spec_sw_jdk(all@, 8),
            sr2 == 2 + spec_sw_ratio(all@),
        decreases sorted@.len() - k,
    {
        proof {
            assert(sorted@.skip(k as int).first() == sorted@[k as int]);
            assert(sorted@.skip(k as int).drop_first() =~= sorted@.skip(k as int + 1));
        }
        let entry = &sorted[k];
        let p0 = pad_right(entry.0.as_str(), sn2);
        s.append(p0.as_str());
        let t_str = usize_to_string(entry.1.total_pods);
        let p1 = pad_right(t_str.as_str(), st2);
        s.append(p1.as_str());
        let j_str = usize_to_string(entry.1.jdk_pods);
        let p2 = pad_right(j_str.as_str(), sj2);
        s.append(p2.as_str());
        let r_str = ratio_string(entry.1.jdk_pods, entry.1.total_pods);
        let p3 = pad_right(r_str.as_str(), sr2);
        s.append(p3.as_str());
        let m_str = u64_to_string(elapsed_secs / 60);
        s.append(m_str.as_str());
        s.append("m ");
        let sec_str = u64_to_string(elapsed_secs % 60);
        s.append(sec_str.as_str());
        s.append("s\n");
        k = k + 1;
    }
    proof {
        assert(sorted@.skip(sorted@.len() as int) =~= Seq::<(String, NamespaceStats)>::empty());
        assert(s@ =~= table);
    }
    s
}

/// The whole report: a leading blank line, the pod table, a blank line,
/// then the per-namespace summary with its lines in lexicographic
/// namespace order.
pub open spec fn spec_render_results(
    r: ScanResult,
    sorted: Seq<(String, NamespaceStats)>,
    elapsed_secs: nat,
) -> Seq<char> {
    "\n"@ + spec_pod_table(spec_flat(r.pod_versions@)) + "\n"@ + spec_summary_table(
        r.namespace_stats@,
        sorted,
        elapsed_secs,
    )
}

/// Renders the human-readable report of a finished aggregate: the table of
/// every matched pod in scan order, then the per-namespace summary sorted
/// lexicographically by namespace name — a permutation of exactly the
/// recorded entries — with each ratio as a percentage with one decimal
/// place.
pub fn render_results(result: &ScanResult, elapsed_secs: u64) -> (s: String)
    requires
        result.wf(),
        spec_pod_widths_fit(spec_flat(result.pod_versions@)),
        spec_summary_widths_fit(result.namespace_stats@),
    ensures
        exists|sorted: Seq<(String, NamespaceStats)>|
            {
                &&& spec_sorted_by_ns(sorted)
                &&& sorted.to_multiset() == result.namespace_stats@.to_multiset()
                &&& s@ == spec_render_results(*result, sorted, elapsed_secs as nat)
            },
{
    let rows = flatten_rows(&result.pod_versions);
    let pods_part = pod_table(&rows);
    let mut entries: Vec<(String, NamespaceStats)> = Vec::new();
    let mut k: usize = 0;
    proof {
        assert(entries@ =~= result.namespace_stats@.subrange(0, 0));
    }
    while k < result.namespace_stats.len()
        invariant
            k <= result.namespace_stats@.len(),
            entries@ == result.namespace_stats@.subrange(0, k as int),
        decreases result.namespace_stats@.len() - k,
    {
        let e = &result.namespace_stats[k];
        entries.push((e.0.clone(), e.1));
        proof {
            assert(entries@ =~= result.namespace_stats@.subrange(0, k as int + 1));
        }
        k = k + 1;
    }
    proof {
        assert(result.namespace_stats@.subrange(0, result.namespace_stats@.len() as int)
            =~= result.namespace_stats@);
    }
    let sorted = sort_by_namespace(entries);
    proof {
        assert forall|k: int|
            0 <= k < sorted@.len() implies (#[trigger] sorted@[k]).1.jdk_pods
            <= sorted@[k].1.total_pods by {
            assert(result.namespace_stats@.contains(sorted@[k]));
            let i = choose|i: int|
                0 <= i < result.namespace_stats@.len() && result.namespace_stats@[i]
                    == sorted@[k];
            assert(result.namespace_stats@[i].1.jdk_pods
                <= result.namespace_stats@[i].1.total_pods);
        }
    }
    let summary_part = summary_table(&result.namespace_stats, &sorted, elapsed_secs);
    let mut s = String::from_str("\n");
    s.append(pods_part.as_str());
    s.append("\n");
    s.append(summary_part.as_str());
    proof {
        assert(s@ == spec_render_results(*result, sorted@, elapsed_secs as nat));
    }
    s
}

/// One data row of the export: index, namespace, pod and version,
/// comma-separated.
pub open spec fn spec_csv_row(idx: nat, ns: Seq<char>, pod: Seq<char>, ver: Seq<char>) -> Seq<
    char,
> {
    spec_dec(idx) + ","@ + ns + ","@ + pod + ","@ + ver + "\n"@
}

/// The export rows of one namespace's pod-to-version entries, indices
/// counting on from `start`.
pub open spec fn spec_csv_rows_ns(ns: Seq<char>, entries: Seq<(String, String)>, start: nat) -> Seq<
    char,
>
    decreases entries.len(),
{
    if entries.len() == 0 {
        Seq::empty()
    } else {
        spec_csv_row(start, ns, entries.first().0@, entries.first().1@) + spec_csv_rows_ns(
            ns,
            entries.drop_first(),
            start + 1,
        )
    }
}

/// The export rows of the whole mapping, one namespace after the other in
/// scan order, indices counting on from `start`.
pub open spec fn spec_csv_rows(pv: Seq<(String, Vec<(String, String)>)>, start: nat) -> Seq<char>
    decreases pv.len(),
{
    if pv.len() == 0 {
        Seq::empty()
    } else {
        spec_csv_rows_ns(pv.first().0@, pv.first().1@, start) + spec_csv_rows(
            pv.drop_first(),
            start + pv.first().1@.len(),
        )
    }
}

/// The whole export record: the header row, one row per matched pod in
/// scan order, then a blank line and the summary comment lines.
pub open spec fn spec_csv(r: ScanResult, elapsed_secs: nat) -> Seq<char> {
    "INDEX,NAMESPACE,POD,JAVA_VERSION\n"@ + spec_csv_rows(r.pod_versions@, 1)
        + "\n# Scan Summary\n# Total pods scanned: "@ + spec_dec(r.total_pods as nat)
        + "\n# Pods using JDK: "@ + spec_dec(r.jdk_pods as nat) + "\n# Time taken: "@ + spec_dec(
        (elapsed_secs / 60) as nat,
    ) + "m "@ + spec_dec((elapsed_secs % 60) as nat) + "s\n"@
}

/// The number of rows a mapping still yields, by namespace suffix.
pub proof fn lemma_rows_count_concat(
    a: Seq<(String, Vec<(String, String)>)>,
    b: Seq<(String, Vec<(String, String)>)>,
)
    ensures
        spec_rows_count(a + b) == spec_rows_count(a) + spec_rows_count(b),
    decreases b.len(),
{
    if b.len() == 0 {
        assert(a + b =~= a);
    } else {
        assert((a + b).drop_last() =~= a + b.drop_last());
        assert((a + b).last() == b.last());
        lemma_rows_count_concat(a, b.drop_last());
    }
}

/// Every mapping yields a nonnegative number of rows.
pub proof fn lemma_rows_count_nonneg(pv: Seq<(String, Vec<(String, String)>)>)
    ensures
        spec_rows_count(pv) >= 0,
    decreases pv.len(),
{
    if pv.len() > 0 {
        lemma_rows_count_nonneg(pv.drop_last());
    }
}

/// Renders the delimited export of a finished aggregate: header row, one
/// row per matched pod in scan order, a trailing blank line and the
/// summary comments (total scanned, total matched, elapsed time).
pub fn render_csv(result: &ScanResult, elapsed_secs: u64) -> (s: String)
    requires
        result.wf(),
        result.jdk_pods < usize::MAX,
    ensures
        s@ == spec_csv(*result, elapsed_secs as nat),
{
    let ghost pv = result.pod_versions@;
    let ghost header = "INDEX,NAMESPACE,POD,JAVA_VERSION\n"@;
    let mut s = String::from_str("INDEX,NAMESPACE,POD,JAVA_VERSION\n");
    let mut idx: usize = 1;
    let mut i: usize = 0;
    proof {
        assert(pv.skip(0) =~= pv);
        assert(pv.subrange(0, 0) =~= Seq::<(String, Vec<(String, String)>)>::empty());
    }
    while i < result.pod_versions.len()
        invariant
            result.wf(),
            result.jdk_pods < usize::MAX,
            pv == result.pod_versions@,
            i <= pv.len(),
            s@ + spec_csv_rows(pv.skip(i as int), idx as nat) == header + spec_csv_rows(pv, 1),
            idx == 1 + spec_rows_count(pv.subrange(0, i as int)),
            idx <= 1 + result.jdk_pods,
        decreases pv.len() - i,
    {
        let entry = &result.pod_versions[i];
        let ghost entries = entry.1@;
        let ghost idx0 = idx as int;
        proof {
            assert(pv.skip(i as int).first() == pv[i as int]);
            assert(pv.skip(i as int).drop_first() =~= pv.skip(i as int + 1));
            assert(entries.skip(0) =~= entries);
            // the index stays within the total row count
            assert(pv.subrange(0, i as int + 1) =~= pv.subrange(0, i as int) + seq![pv[i as int]]);
            lemma_rows_count_concat(pv.subrange(0, i as int), seq![pv[i as int]]);
            assert(spec_rows_count(seq![pv[i as int]]) == entries.len()) by {
                let single = seq![pv[i as int]];
                assert(single.drop_last() =~= Seq::<(String, Vec<(String, String)>)>::empty());
                assert(spec_rows_count(single.drop_last()) == 0);
                assert(single.last().1@ == entries);
            }
            assert(pv =~= pv.subrange(0, i as int + 1) + pv.skip(i as int + 1));
            lemma_rows_count_concat(pv.subrange(0, i as int + 1), pv.skip(i as int + 1));
            lemma_rows_count_nonneg(pv.skip(i as int + 1));
        }
        let mut j: usize = 0;
        while j < entry.1.len()
            invariant
                result.jdk_pods < usize::MAX,
                entries == entry.1@,
                j <= entries.len(),
                idx as int == idx0 + j,
                idx0 + entries.len() <= 1 + result.jdk_pods,
                s@ + spec_csv_rows_ns(entry.0@, entries.skip(j as int), idx as nat)
                    + spec_csv_rows(pv.skip(i as int + 1), (idx0 + entries.len()) as nat) == header
                    + spec_csv_rows(pv, 1),
            decreases entries.len() - j,
        {
            proof {
                assert(entries.skip(j as int).first() == entries[j as int]);
                assert(entries.skip(j as int).drop_first() =~= entries.skip(j as int + 1));
            }
            let row = &entry.1[j];
            let idx_str = usize_to_string(idx);
            s.append(idx_str.as_str());
            s.append(",");
            s.append(entry.0.as_str());
            s.append(",");
            s.append(row.0.as_str());
            s.append(",");
            s.append(row.1.as_str());
            s.append("\n");
            idx = idx + 1;
            j = j + 1;
        }
        proof {
            assert(entries.skip(entries.len() as int) =~= Seq::<(String, String)>::empty());
        }
        i = i + 1;
    }
    proof {
        assert(pv.skip(pv.len() as int) =~= Seq::<(String, Vec<(String, String)>)>::empty());
        assert(s@ =~= header + spec_csv_rows(pv, 1));
    }
    s.append("\n# Scan Summary\n# Total pods scanned: ");
    let total_str = usize_to_string(result.total_pods);
    s.append(total_str.as_str());
    s.append("\n# Pods using JDK: ");
    let jdk_str = usize_to_string(result.jdk_pods);
    s.append(jdk_str.as_str());
    s.append("\n# Time taken: ");
    let mins = u64_to_string(elapsed_secs / 60);
    s.append(mins.as_str());
    s.append("m ");
    let secs = u64_to_string(elapsed_secs % 60);
    s.append(secs.as_str());
    s.append("s\n");
    s
}

} // verus!
