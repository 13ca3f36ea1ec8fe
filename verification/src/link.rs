//! The render-link builder: a pure function from an ordered sequence of
//! exercise identifiers to the single query string that the PDF-rendering
//! endpoint consumes. Identifiers are inserted verbatim, one `:`-prefixed
//! segment each, in the given order.

use vstd::prelude::*;
use vstd::string::*;

verus! {

/// The fixed base of every render-collection link.
pub open spec fn base_url() -> Seq<char> {
    "https://prod.aufgabenpool.at/srdp/createpdf.php?coll="@
}

/// One `:`-prefixed segment per identifier, in order, nothing else.
pub open spec fn link_suffix(ids: Seq<Seq<char>>) -> Seq<char>
    decreases ids.len(),
{
    if ids.len() == 0 {
        Seq::empty()
    } else {
        seq![':'] + ids[0] + link_suffix(ids.skip(1))
    }
}

/// The full render-collection link for an identifier sequence.
pub open spec fn link_of(ids: Seq<Seq<char>>) -> Seq<char> {
    base_url() + link_suffix(ids)
}

pub fn base_url_str() -> (r: &'static str)
    ensures
        r@ == base_url(),
{
    "https://prod.aufgabenpool.at/srdp/createpdf.php?coll="
}

proof fn lemma_link_suffix_push(ids: Seq<Seq<char>>, x: Seq<char>)
    ensures
        link_suffix(ids.push(x)) == link_suffix(ids) + seq![':'] + x,
    decreases ids.len(),
{
    assert(link_suffix(ids.push(x)) == seq![':'] + ids.push(x)[0] + link_suffix(
        ids.push(x).skip(1),
    ));
    if ids.len() == 0 {
        assert(ids.push(x).skip(1) =~= ids);
        assert(ids.push(x)[0] == x);
        assert(link_suffix(ids) == Seq::<char>::empty());
        assert(link_suffix(ids.push(x)) =~= link_suffix(ids) + seq![':'] + x);
    } else {
        assert(ids.push(x).skip(1) =~= ids.skip(1).push(x));
        lemma_link_suffix_push(ids.skip(1), x);
        assert(link_suffix(ids.push(x)) == seq![':'] + ids[0] + (link_suffix(ids.skip(1)) + seq![':']
            + x));
        assert(link_suffix(ids.push(x)) =~= link_suffix(ids) + seq![':'] + x);
    }
}

/// An identifier in which no `:` occurs. The endpoint's accepted identifier
/// alphabet has no `:`; identifiers are inserted into the link verbatim, so
/// one containing `:` could forge the link of a different sequence.
pub open spec fn colon_free(id: Seq<char>) -> bool {
    forall|j: int| 0 <= j < id.len() ==> #[trigger] id[j] != ':'
}

proof fn lemma_link_suffix_injective(a: Seq<Seq<char>>, b: Seq<Seq<char>>)
    requires
        forall|i: int| 0 <= i < a.len() ==> colon_free(#[trigger] a[i]),
        forall|i: int| 0 <= i < b.len() ==> colon_free(#[trigger] b[i]),
        link_suffix(a) == link_suffix(b),
    ensures
        a == b,
    decreases a.len(),
{
    if a.len() == 0 && b.len() == 0 {
        assert(a =~= b);
    } else if a.len() == 0 {
        assert(link_suffix(b) == seq![':'] + b[0] + link_suffix(b.skip(1)));
        assert(link_suffix(a).len() == 0);
        assert(false);
    } else if b.len() == 0 {
        assert(link_suffix(a) == seq![':'] + a[0] + link_suffix(a.skip(1)));
        assert(link_suffix(b).len() == 0);
        assert(false);
    } else {
        let s = link_suffix(a);
        let sa = link_suffix(a.skip(1));
        let sb = link_suffix(b.skip(1));
        let x = a[0];
        let y = b[0];
        assert(s == seq![':'] + x + sa);
        assert(s == seq![':'] + y + sb);
        assert(s.len() == 1 + x.len() + sa.len());
        assert(s.len() == 1 + y.len() + sb.len());
        if x.len() < y.len() {
            let k = 1 + x.len() as int;
            assert(sa.len() > 0);
            assert(a.skip(1).len() > 0);
            assert(sa == seq![':'] + a.skip(1)[0] + link_suffix(a.skip(1).skip(1)));
            assert(s[k] == sa[0]);
            assert(sa[0] == ':');
            assert(s[k] == y[x.len() as int]);
            assert(colon_free(y));
            assert(false);
        }
        if y.len() < x.len() {
            let k = 1 + y.len() as int;
            assert(sb.len() > 0);
            assert(b.skip(1).len() > 0);
            assert(sb == seq![':'] + b.skip(1)[0] + link_suffix(b.skip(1).skip(1)));
            assert(s[k] == sb[0]);
            assert(sb[0] == ':');
            assert(s[k] == x[y.len() as int]);
            assert(colon_free(x));
            assert(false);
        }
        assert(x.len() == y.len());
        assert forall|j: int| 0 <= j < x.len() implies x[j] == y[j] by {
            assert(s[1 + j] == x[j]);
            assert(s[1 + j] == y[j]);
        }
        assert(x =~= y);
        assert(sa.len() == sb.len());
        assert forall|j: int| 0 <= j < sa.len() implies sa[j] == sb[j] by {
            assert(s[1 + x.len() + j] == sa[j]);
            assert(s[1 + y.len() + j] == sb[j]);
        }
        assert(sa =~= sb);
        assert forall|i: int| 0 <= i < a.skip(1).len() implies colon_free(
            #[trigger] a.skip(1)[i],
        ) by {
            assert(a.skip(1)[i] == a[i + 1]);
        }
        assert forall|i: int| 0 <= i < b.skip(1).len() implies colon_free(
            #[trigger] b.skip(1)[i],
        ) by {
            assert(b.skip(1)[i] == b[i + 1]);
        }
        lemma_link_suffix_injective(a.skip(1), b.skip(1));
        assert forall|i: int| 0 <= i < a.len() implies a[i] == b[i] by {
            if i > 0 {
                assert(a.skip(1)[i - 1] == a[i]);
                assert(b.skip(1)[i - 1] == b[i]);
            }
        }
        assert(a =~= b);
    }
}

/// *Link building is injective*: two sequences of colon-free identifiers
/// that build the same link are the same sequence — in particular, different
/// orderings of the same identifiers yield different links.
pub proof fn lemma_link_injective(a: Seq<Seq<char>>, b: Seq<Seq<char>>)
    requires
        forall|i: int| 0 <= i < a.len() ==> colon_free(#[trigger] a[i]),
        forall|i: int| 0 <= i < b.len() ==> colon_free(#[trigger] b[i]),
        link_of(a) == link_of(b),
    ensures
        a == b,
{
    let n = base_url().len() as int;
    assert(link_suffix(a) =~= link_of(a).subrange(n, link_of(a).len() as int));
    assert(link_suffix(b) =~= link_of(b).subrange(n, link_of(b).len() as int));
    lemma_link_suffix_injective(a, b);
}

/// Builds the render link for `ids`: the base URL followed by one
/// `:`-prefixed identifier per entry, in the given order.
pub fn build_link(ids: &Vec<String>) -> (r: String)
    ensures
        r@ == link_of(ids@.map_values(|s: String| s@)),
{
    let ghost id_views = ids@.map_values(|s: String| s@);
    let mut r = String::from_str(base_url_str());
    let mut i: usize = 0;
    while i < ids.len()
        invariant
            i <= ids.len(),
            id_views == ids@.map_values(|s: String| s@),
            r@ == base_url() + link_suffix(id_views.take(i as int)),
        decreases ids.len() - i,
    {
        r.append(":");
        r.append(ids[i].as_str());
        proof {
            reveal_strlit(":");
            assert(id_views.take(i + 1) =~= id_views.take(i as int).push(id_views[i as int]));
            lemma_link_suffix_push(id_views.take(i as int), id_views[i as int]);
            assert(":"@ =~= seq![':']);
        }
        i = i + 1;
    }
    proof {
        assert(id_views.take(ids@.len() as int) =~= id_views);
    }
    r
}

} // verus!
