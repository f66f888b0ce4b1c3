//! The query logic of the module template: a provider that greets on `hello <name>`.

use vstd::prelude::*;
use crate::unicode::{ascii_lower, chars_of, is_white_space, starts_with_text, white_space};

verus! {

/// `s` without its leading whitespace.
pub open spec fn trim_start(s: Seq<char>) -> Seq<char>
    decreases s.len(),
{
    if s.len() > 0 && is_white_space(s[0]) {
        trim_start(s.drop_first())
    } else {
        s
    }
}

/// `s` without its trailing whitespace.
pub open spec fn trim_end(s: Seq<char>) -> Seq<char>
    decreases s.len(),
{
    if s.len() > 0 && is_white_space(s.last()) {
        trim_end(s.drop_last())
    } else {
        s
    }
}

/// `s` without leading and trailing whitespace, as `str::trim` returns it.
pub open spec fn trim(s: Seq<char>) -> Seq<char> {
    trim_end(trim_start(s))
}

proof fn lemma_trim_start_skip(s: Seq<char>, i: int)
    requires
        0 <= i <= s.len(),
        forall|k: int| 0 <= k < i ==> is_white_space(#[trigger] s[k]),
    ensures
        trim_start(s) == trim_start(s.subrange(i, s.len() as int)),
    decreases i,
{
    if i > 0 {
        lemma_trim_start_skip(s.drop_first(), i - 1);
        assert(s.drop_first().subrange(i - 1, s.len() - 1) == s.subrange(i, s.len() as int));
    } else {
        assert(s.subrange(0, s.len() as int) == s);
    }
}

proof fn lemma_trim_end_take(s: Seq<char>, j: int)
    requires
        0 <= j <= s.len(),
        forall|k: int| j <= k < s.len() ==> is_white_space(#[trigger] s[k]),
    ensures
        trim_end(s) == trim_end(s.subrange(0, j)),
    decreases s.len() - j,
{
    if j < s.len() {
        lemma_trim_end_take(s.drop_last(), j);
        assert(s.drop_last().subrange(0, j) == s.subrange(0, j));
    } else {
        assert(s.subrange(0, j) == s);
    }
}

/// `s` without leading and trailing whitespace.
pub fn trim_text(s: &str) -> (res: &str)
    ensures
        res@ == trim(s@),
{
    let c = chars_of(s);
    let n = c.len();
    let mut i: usize = 0;
    while i < n && white_space(c[i])
        invariant
            c@ == s@,
            n == c@.len(),
            i <= n,
            forall|k: int| 0 <= k < i ==> is_white_space(#[trigger] c@[k]),
        decreases n - i,
    {
        i += 1;
    }
    let mut j: usize = n;
    while j > i && white_space(c[j - 1])
        invariant
            c@ == s@,
            n == c@.len(),
            i <= j <= n,
            forall|k: int| j <= k < n ==> is_white_space(#[trigger] c@[k]),
        decreases j,
    {
        j -= 1;
    }
    proof {
        lemma_trim_start_skip(s@, i as int);
        let rest = s@.subrange(i as int, n as int);
        assert(trim_start(rest) == rest);
        assert forall|k: int| j - i <= k < rest.len() implies is_white_space(#[trigger] rest[k]) by {
            assert(rest[k] == c@[i + k]);
        }
        lemma_trim_end_take(rest, j - i);
        let kept = rest.subrange(0, j - i);
        assert(kept == s@.subrange(i as int, j as int));
        if kept.len() > 0 {
            assert(kept.last() == c@[j - 1]);
        }
        assert(trim_end(kept) == kept);
    }
    s.substring_char(i, j)
}

/// `s` with `A` to `Z` mapped to `a` to `z` and every other character kept, as
/// `str::to_ascii_lowercase` returns it.
fn lowercase_ascii(s: &str) -> (res: String)
    ensures
        res@ == s@.map_values(|c: char| ascii_lower(c)),
{
    let alphabet = "abcdefghijklmnopqrstuvwxyz";
    proof {
        reveal_strlit("abcdefghijklmnopqrstuvwxyz");
        assert forall|k: int| 0 <= k < 26 implies #[trigger] alphabet@[k] == ((97 + k) as char) by {
            assert(alphabet@ == seq!['a', 'b', 'c', 'd', 'e', 'f', 'g', 'h', 'i', 'j', 'k', 'l', 'm', 'n', 'o', 'p', 'q', 'r', 's', 't', 'u', 'v', 'w', 'x', 'y', 'z']);
        }
    }
    let c = chars_of(s);
    let mut out = String::new();
    let mut i: usize = 0;
    while i < c.len()
        invariant
            c@ == s@,
            alphabet@.len() == 26,
            forall|k: int| 0 <= k < 26 ==> #[trigger] alphabet@[k] == ((97 + k) as char),
            i <= c@.len(),
            out@ == s@.take(i as int).map_values(|x: char| ascii_lower(x)),
        decreases c@.len() - i,
    {
        let x = c[i];
        if 'A' <= x && x <= 'Z' {
            let k = ((x as u32) - 65) as usize;
            let letter = alphabet.substring_char(k, k + 1);
            assert(letter@ == seq![ascii_lower(x)]);
            out.append(letter);
        } else {
            let same = s.substring_char(i, i + 1);
            assert(same@ == seq![x]);
            out.append(same);
        }
        proof {
            assert(s@.take(i + 1).map_values(|y: char| ascii_lower(y)) == s@.take(i as int).map_values(|y: char| ascii_lower(y)).push(ascii_lower(x)));
        }
        i += 1;
    }
    proof {
        assert(s@.take(c@.len() as int) == s@);
    }
    out
}

/// How a result is drawn.
#[derive(Clone, Debug, PartialEq, Eq)]
pub enum Icon {
    /// A short text, such as a letter.
    Text(String),
}

/// What activating a result does.
#[derive(Clone, Debug, PartialEq, Eq)]
pub enum Action {
    /// Copies the text to the clipboard.
    CopyText(String),
}

/// One result of a query.
#[derive(Clone, Debug, PartialEq, Eq)]
pub struct ResultItem {
    pub id: String,
    pub title: String,
    pub subtitle: String,
    pub icon: Icon,
    pub action: Action,
}

/// The answer to a query.
#[derive(Clone, Debug, PartialEq, Eq)]
pub struct QueryResponse {
    pub results: Vec<ResultItem>,
    /// Whether the response hides the launcher's own results.
    pub exclusive: bool,
}

/// Whether the trimmed query starts with `hello`.
pub open spec fn is_hello(query: Seq<char>) -> bool {
    let q = trim(query);
    q.len() >= 5 && q.subrange(0, 5) == "hello"@
}

/// The name that follows `hello` in the query, trimmed.
pub open spec fn hello_name(query: Seq<char>) -> Seq<char> {
    let q = trim(query);
    trim(q.subrange(5, q.len() as int))
}

proof fn lemma_trim_start_shape(s: Seq<char>) -> (a: int)
    ensures
        0 <= a <= s.len(),
        forall|k: int| 0 <= k < a ==> is_white_space(#[trigger] s[k]),
        trim_start(s) == s.subrange(a, s.len() as int),
        a < s.len() ==> !is_white_space(s[a]),
    decreases s.len(),
{
    if s.len() > 0 && is_white_space(s[0]) {
        let a1 = lemma_trim_start_shape(s.drop_first());
        assert(s.drop_first().subrange(a1, s.len() - 1) =~= s.subrange(a1 + 1, s.len() as int));
        assert forall|k: int| 0 <= k < a1 + 1 implies is_white_space(#[trigger] s[k]) by {
            if k > 0 {
                assert(s[k] == s.drop_first()[k - 1]);
            }
        }
        a1 + 1
    } else {
        assert(s.subrange(0, s.len() as int) =~= s);
        0
    }
}

proof fn lemma_trim_end_shape(s: Seq<char>) -> (b: int)
    ensures
        0 <= b <= s.len(),
        forall|k: int| b <= k < s.len() ==> is_white_space(#[trigger] s[k]),
        trim_end(s) == s.subrange(0, b),
        b > 0 ==> !is_white_space(s[b - 1]),
    decreases s.len(),
{
    if s.len() > 0 && is_white_space(s.last()) {
        let b1 = lemma_trim_end_shape(s.drop_last());
        assert(s.drop_last().subrange(0, b1) =~= s.subrange(0, b1));
        assert forall|k: int| b1 <= k < s.len() implies is_white_space(#[trigger] s[k]) by {
            if k < s.len() - 1 {
                assert(s[k] == s.drop_last()[k]);
            }
        }
        b1
    } else {
        assert(s.subrange(0, s.len() as int) =~= s);
        s.len() as int
    }
}

/// The name greeted is everything after `hello` in the trimmed query, with only the
/// whitespace at its two ends left out: the trimmed query is `hello`, some whitespace,
/// the name, then only whitespace; inner whitespace stays in the name, so
/// `hello John Smith` greets `John Smith`.
pub proof fn lemma_hello_greets_whole_rest(query: Seq<char>)
    requires
        is_hello(query),
    ensures
        exists|i: int, j: int| #![trigger trim(query).subrange(i, j)]
            5 <= i <= j <= trim(query).len()
            && (forall|k: int| 5 <= k < i ==> is_white_space(#[trigger] trim(query)[k]))
            && (forall|k: int| j <= k < trim(query).len() ==> is_white_space(#[trigger] trim(query)[k]))
            && hello_name(query) == trim(query).subrange(i, j)
            && (i < j ==> !is_white_space(trim(query)[i]) && !is_white_space(trim(query)[j - 1])),
{
    let t = trim(query);
    let r = t.subrange(5, t.len() as int);
    let a = lemma_trim_start_shape(r);
    let u = trim_start(r);
    let b = lemma_trim_end_shape(u);
    let i = 5 + a;
    let j = 5 + a + b;
    assert(hello_name(query) == trim_end(u));
    assert(u.subrange(0, b) =~= t.subrange(i, j));
    assert forall|k: int| 5 <= k < i implies is_white_space(#[trigger] t[k]) by {
        assert(t[k] == r[k - 5]);
    }
    assert forall|k: int| j <= k < t.len() implies is_white_space(#[trigger] t[k]) by {
        assert(t[k] == r[k - 5]);
        assert(r[k - 5] == u[k - 5 - a]);
    }
    if i < j {
        assert(t[i] == u[0]);
        assert(t[j - 1] == u[b - 1]);
    }
    assert(t.subrange(i, j) == t.subrange(i, j));
}

/// The greeting for a name: `Hello!` without one, `Hello, <name>!` with one.
pub open spec fn greeting(name: Seq<char>) -> Seq<char> {
    if name.len() == 0 { "Hello!"@ } else { "Hello, "@ + name + "!"@ }
}

/// Answers a query: `hello` and an optional name give one result that greets the name
/// and copies the greeting; any other query gives no result. The response is never
/// exclusive.
pub fn hello_query(query: &str) -> (res: QueryResponse)
    ensures
        !res.exclusive,
        !is_hello(query@) ==> res.results@.len() == 0,
        is_hello(query@) ==> {
            let name = hello_name(query@);
            let item = res.results@[0];
            &&& res.results@.len() == 1
            &&& item.id@ == "hello:"@ + name.map_values(|c: char| ascii_lower(c))
            &&& item.title@ == greeting(name)
            &&& item.subtitle@ == "Press Enter to copy"@
            &&& item.icon matches Icon::Text(t) && t@ == "H"@
            &&& item.action matches Action::CopyText(t) && t@ == greeting(name)
        },
{
    let q = trim_text(query);
    let qc = chars_of(q);
    proof {
        reveal_strlit("hello");
    }
    if !starts_with_text(&qc, "hello") {
        return QueryResponse { results: Vec::new(), exclusive: false };
    }
    let rest = q.substring_char(5, qc.len());
    let name = trim_text(rest);
    let greeting_text = if name.is_empty() {
        String::from_str("Hello!")
    } else {
        let mut g = String::from_str("Hello, ");
        g.append(name);
        g.append("!");
        g
    };
    let mut id = String::from_str("hello:");
    let lower = lowercase_ascii(name);
    id.append(lower.as_str());
    let item = ResultItem {
        id,
        title: greeting_text.clone(),
        subtitle: String::from_str("Press Enter to copy"),
        icon: Icon::Text(String::from_str("H")),
        action: Action::CopyText(greeting_text),
    };
    let mut results: Vec<ResultItem> = Vec::new();
    results.push(item);
    QueryResponse { results, exclusive: false }
}

} // verus!
