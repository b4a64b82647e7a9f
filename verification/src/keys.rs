//! Natural keys and the facts that a source identifier fixes: the metric
//! and the fiscal year.

use vstd::prelude::*;
use crate::numeral::{code_of, is_dec_digit, magnitude};
use crate::text::{
    char_is_alphanumeric, char_is_whitespace, chars_of, is_alphanumeric, is_infix, is_whitespace,
    lowercase, push_char,
    str_contains, str_trim, to_lowercase, trimmed,
};

verus! {

/// Whitespace becomes an underscore; any other character stays.
pub open spec fn space_to_underscore(c: char) -> char {
    if is_whitespace(c) {
        '_'
    } else {
        c
    }
}

/// The characters that a natural key may hold.
pub open spec fn is_key_char(c: char) -> bool {
    c == '_' || is_alphanumeric(c)
}

/// `s` with whitespace turned into underscores, and then without anything
/// that is neither a letter, a number nor an underscore.
pub open spec fn key_chars(s: Seq<char>) -> Seq<char> {
    s.map_values(|c: char| space_to_underscore(c)).filter(|c: char| is_key_char(c))
}

/// The natural key of a display name: lower case, whitespace as
/// underscores, punctuation dropped, letters with diacritics kept.
pub open spec fn natural_key_of(name: Seq<char>) -> Seq<char> {
    key_chars(lowercase(name))
}

proof fn lemma_key_chars_push(s: Seq<char>, c: char)
    ensures
        key_chars(s.push(c)) == if is_key_char(space_to_underscore(c)) {
            key_chars(s).push(space_to_underscore(c))
        } else {
            key_chars(s)
        },
{
    let f = |c: char| space_to_underscore(c);
    let p = |c: char| is_key_char(c);
    let m = s.push(c).map_values(f);
    assert(m.drop_last() == s.map_values(f));
    assert(m.last() == space_to_underscore(c));
    reveal(Seq::filter);
    assert(m.filter(p) == if p(m.last()) {
        m.drop_last().filter(p).push(m.last())
    } else {
        m.drop_last().filter(p)
    });
}

/// The display name of an entity: the raw text without the whitespace
/// around it.
pub fn display_name(raw: &str) -> (r: String)
    ensures
        r@ == trimmed(raw@),
{
    str_trim(raw)
}

/// The natural key of a display name.
pub fn natural_key(name: &str) -> (r: String)
    ensures
        r@ == natural_key_of(name@),
{
    let lower = to_lowercase(name);
    key_of_lowercase(lower.as_str())
}

/// The natural key that a name in lower case gives: whitespace becomes
/// underscores, and nothing but letters, numbers and underscores stays.
pub fn key_of_lowercase(lower: &str) -> (r: String)
    ensures
        r@ == key_chars(lower@),
{
    let v = chars_of(lower);
    let mut key = String::new();
    let mut i: usize = 0;
    proof {
        reveal(Seq::filter);
        assert(v@.take(0).map_values(|c: char| space_to_underscore(c)) == Seq::<char>::empty());
        assert(key_chars(v@.take(0)) == Seq::<char>::empty());
    }
    while i < v.len()
        invariant
            i <= v.len(),
            key@ == key_chars(v@.take(i as int)),
        decreases v.len() - i,
    {
        let c = v[i];
        proof {
            lemma_key_chars_push(v@.take(i as int), c);
            assert(v@.take(i + 1) == v@.take(i as int).push(c));
        }
        if char_is_whitespace(c) {
            push_char(&mut key, '_');
        } else if c == '_' || char_is_alphanumeric(c) {
            push_char(&mut key, c);
        }
        i = i + 1;
    }
    assert(v@.take(v.len() as int) == v@);
    key
}

/// A metric: its natural key, display name and unit.
#[derive(Clone, Debug, PartialEq, Eq)]
pub struct Metric {
    pub key: String,
    pub name: String,
    pub unit: String,
}

pub struct MetricView {
    pub key: Seq<char>,
    pub name: Seq<char>,
    pub unit: Seq<char>,
}

impl View for Metric {
    type V = MetricView;

    open spec fn view(&self) -> MetricView {
        MetricView { key: self.key@, name: self.name@, unit: self.unit@ }
    }
}

/// The metric that a generic delimited file reports, by the words in its
/// source identifier.
pub open spec fn generic_metric_of(source_id: Seq<char>) -> MetricView {
    if is_infix("presupuesto"@, source_id) {
        MetricView { key: "presupuesto_ejecutado"@, name: "Presupuesto Ejecutado"@, unit: "CLP"@ }
    } else if is_infix("gasto"@, source_id) {
        MetricView { key: "gasto_total"@, name: "Gasto Total"@, unit: "CLP"@ }
    } else if is_infix("dotacion"@, source_id) {
        MetricView { key: "dotacion"@, name: "Dotación de Personal"@, unit: "CLP"@ }
    } else {
        MetricView { key: "monto"@, name: "Monto"@, unit: "CLP"@ }
    }
}

/// The metric that a budget workbook reports, by the words in its source
/// identifier.
pub open spec fn workbook_metric_of(source_id: Seq<char>) -> MetricView {
    if is_infix("presupuesto"@, source_id) {
        MetricView { key: "presupuesto_ley"@, name: "Presupuesto de Ley"@, unit: "CLP"@ }
    } else if is_infix("gasto"@, source_id) {
        MetricView { key: "gasto_ejecutado"@, name: "Gasto Ejecutado"@, unit: "CLP"@ }
    } else {
        MetricView { key: "monto"@, name: "Monto"@, unit: "CLP"@ }
    }
}

/// The metric of the budget-law export.
pub open spec fn budget_law_metric_view() -> MetricView {
    MetricView { key: "presupuesto_ley"@, name: "Presupuesto de Ley"@, unit: "CLP"@ }
}

fn metric(key: &str, name: &str) -> (m: Metric)
    ensures
        m@ == (MetricView { key: key@, name: name@, unit: "CLP"@ }),
{
    Metric { key: key.to_owned(), name: name.to_owned(), unit: "CLP".to_owned() }
}

/// Chooses the metric of a generic delimited file.
pub fn generic_metric(source_id: &str) -> (m: Metric)
    ensures
        m@ == generic_metric_of(source_id@),
{
    if str_contains(source_id, "presupuesto") {
        metric("presupuesto_ejecutado", "Presupuesto Ejecutado")
    } else if str_contains(source_id, "gasto") {
        metric("gasto_total", "Gasto Total")
    } else if str_contains(source_id, "dotacion") {
        metric("dotacion", "Dotación de Personal")
    } else {
        metric("monto", "Monto")
    }
}

/// Chooses the metric of a budget workbook.
pub fn workbook_metric(source_id: &str) -> (m: Metric)
    ensures
        m@ == workbook_metric_of(source_id@),
{
    if str_contains(source_id, "presupuesto") {
        metric("presupuesto_ley", "Presupuesto de Ley")
    } else if str_contains(source_id, "gasto") {
        metric("gasto_ejecutado", "Gasto Ejecutado")
    } else {
        metric("monto", "Monto")
    }
}

/// The metric of the budget-law export.
pub fn budget_law_metric() -> (m: Metric)
    ensures
        m@ == budget_law_metric_view(),
{
    metric("presupuesto_ley", "Presupuesto de Ley")
}

/// The first year that a fact may belong to.
pub const FIRST_YEAR: i32 = 2000;

/// The last year that a fact may belong to.
pub const LAST_YEAR: i32 = 2100;

/// `t` is four decimal digits that name a year from 2000 to 2100.
pub open spec fn is_year_token(t: Seq<char>) -> bool {
    &&& t.len() == 4
    &&& forall|i: int| 0 <= i < 4 ==> is_dec_digit(#[trigger] t[i])
    &&& FIRST_YEAR <= magnitude(t, 10) <= LAST_YEAR
}

/// The end of the hyphen-separated token of `s` that starts at `from`.
pub open spec fn token_end(s: Seq<char>, from: int) -> int
    decreases s.len() - from,
{
    if 0 <= from < s.len() && s[from] != '-' {
        token_end(s, from + 1)
    } else {
        from
    }
}

/// The year named by the first year token among the hyphen-separated
/// tokens of `s` that start at `from` or later.
pub open spec fn year_from(s: Seq<char>, from: int) -> Option<i32>
    decreases s.len() - from,
{
    if 0 <= from <= s.len() {
        let end = token_end(s, from);
        let token = s.subrange(from, end);
        if is_year_token(token) {
            Some(magnitude(token, 10) as i32)
        } else if from <= end < s.len() {
            year_from(s, end + 1)
        } else {
            None
        }
    } else {
        None
    }
}

/// The fiscal year that a source identifier names: its first
/// hyphen-separated token of four digits between 2000 and 2100.
pub open spec fn source_year_of(source_id: Seq<char>) -> Option<i32> {
    year_from(source_id, 0)
}

/// Finds the fiscal year in a source identifier.
pub fn source_year(source_id: &str) -> (r: Option<i32>)
    ensures
        r == source_year_of(source_id@),
        r matches Some(y) ==> FIRST_YEAR <= y <= LAST_YEAR,
{
    let v = chars_of(source_id);
    let n = v.len();
    let mut from: usize = 0;
    loop
        invariant
            from <= n == v.len(),
            v@ == source_id@,
            year_from(v@, 0) == year_from(v@, from as int),
        decreases n - from,
    {
        let mut end: usize = from;
        while end < n
            invariant
                from <= end <= n == v.len(),
                token_end(v@, from as int) == token_end(v@, end as int),
            ensures
                from <= end <= n,
                token_end(v@, from as int) == end,
            decreases n - end,
        {
            if v[end] == '-' {
                break;
            }
            end = end + 1;
        }
        let ghost token = v@.subrange(from as int, end as int);
        if end - from == 4 {
            let d0 = code_of(v[from]);
            let d1 = code_of(v[from + 1]);
            let d2 = code_of(v[from + 2]);
            let d3 = code_of(v[from + 3]);
            if 48 <= d0 && d0 <= 57 && 48 <= d1 && d1 <= 57 && 48 <= d2 && d2 <= 57 && 48 <= d3
                && d3 <= 57 {
                let year: u32 = (d0 - 48) * 1000 + (d1 - 48) * 100 + (d2 - 48) * 10 + (d3 - 48);
                proof {
                    let t3 = token.drop_last();
                    let t2 = t3.drop_last();
                    let t1 = t2.drop_last();
                    assert(t1.drop_last().len() == 0);
                    assert(token[0] == v@[from as int] && token[1] == v@[from + 1]);
                    assert(token[2] == v@[from + 2] && token[3] == v@[from + 3]);
                    assert(t1.last() == token[0] && t2.last() == token[1] && t3.last() == token[2]);
                    assert(magnitude(t1.drop_last(), 10) == 0);
                    assert(magnitude(t1, 10) == d0 - 48);
                    assert(magnitude(t2, 10) == (d0 - 48) * 10 + (d1 - 48));
                    assert(magnitude(t3, 10) == ((d0 - 48) * 10 + (d1 - 48)) * 10 + (d2 - 48));
                    assert(magnitude(token, 10) == year);
                }
                if 2000 <= year && year <= 2100 {
                    return Some(year as i32);
                }
            } else {
                assert(!is_year_token(token)) by {
                    if is_year_token(token) {
                        assert(is_dec_digit(token[0]));
                        assert(is_dec_digit(token[1]));
                        assert(is_dec_digit(token[2]));
                        assert(is_dec_digit(token[3]));
                    }
                }
            }
        }
        assert(!is_year_token(token));
        if end == n {
            return None;
        }
        from = end + 1;
    }
}

} // verus!
