//! The joining capability.
//!
//! [`Join`] turns a finite sequence of items into one string: the items'
//! string forms in production order, with the separator placed strictly
//! between consecutive items, never before the first or after the last.

use vstd::prelude::*;
use vstd::string::StringExecFns;
use crate::canonical::Canonical;

verus! {

/// The string obtained by concatenating `parts` in order, with `sep`
/// inserted between each adjacent pair.
pub open spec fn join_seqs(parts: Seq<Seq<char>>, sep: Seq<char>) -> Seq<char>
    decreases parts.len(),
{
    if parts.len() == 0 {
        Seq::empty()
    } else if parts.len() == 1 {
        parts[0]
    } else {
        join_seqs(parts.drop_last(), sep) + sep + parts.last()
    }
}

/// Joining no parts yields the empty string, whatever the separator.
pub proof fn lemma_join_empty(sep: Seq<char>)
    ensures
        join_seqs(Seq::empty(), sep) == Seq::<char>::empty(),
{
}

/// Joining a single part yields that part alone: the separator is never
/// emitted.
pub proof fn lemma_join_single(part: Seq<char>, sep: Seq<char>)
    ensures
        join_seqs(seq![part], sep) == part,
{
}

/// Appending one more part appends one separator and that part; the first
/// part is never preceded by a separator.
pub proof fn lemma_join_push(parts: Seq<Seq<char>>, sep: Seq<char>, last: Seq<char>)
    ensures
        join_seqs(parts.push(last), sep) == if parts.len() == 0 {
            last
        } else {
            join_seqs(parts, sep) + sep + last
        },
{
    let pushed = parts.push(last);
    if parts.len() == 0 {
        assert(join_seqs(pushed, sep) == pushed[0]);
    } else {
        assert(pushed.drop_last() =~= parts);
        assert(pushed.last() == last);
    }
}

/// The total length of a sequence of parts.
pub open spec fn total_len(parts: Seq<Seq<char>>) -> nat
    decreases parts.len(),
{
    if parts.len() == 0 {
        0
    } else {
        total_len(parts.drop_last()) + parts.last().len()
    }
}

/// Joining `n > 0` parts inserts the separator exactly `n - 1` times: the
/// result is exactly as long as the parts plus `n - 1` separators.
pub proof fn lemma_join_len(parts: Seq<Seq<char>>, sep: Seq<char>)
    requires
        parts.len() > 0,
    ensures
        join_seqs(parts, sep).len() == total_len(parts) + (parts.len() - 1) * sep.len(),
    decreases parts.len(),
{
    if parts.len() == 1 {
        assert(total_len(parts.drop_last()) == 0);
    } else {
        lemma_join_len(parts.drop_last(), sep);
        let n = parts.len() as int;
        let s = sep.len() as int;
        assert((n - 2) * s + s == (n - 1) * s) by (nonlinear_arith);
        assert(parts.drop_last().len() as int == n - 1);
    }
}

/// Whenever a formatter produced exactly the canonical string of each item,
/// the formatted join equals the default join of those items.
pub proof fn lemma_join_canonical<T: Canonical>(
    items: Seq<T>,
    parts: Seq<String>,
    sep: Seq<char>,
)
    requires
        parts.len() == items.len(),
        forall|i: int| 0 <= i < items.len() ==> parts[i]@ == #[trigger] items[i].canon(),
    ensures
        join_seqs(parts.map(|i: int, s: String| s@), sep) == join_seqs(
            items.map(|i: int, x: T| x.canon()),
            sep,
        ),
{
    assert(parts.map(|i: int, s: String| s@) =~= items.map(|i: int, x: T| x.canon()));
}

/// `parts` witnesses that `r` is the `sep`-join of one string per item of
/// `items`, in production order, each string a possible result of the
/// formatter `f` on the corresponding item.
pub open spec fn join_format_witness<T, F: Fn(&T) -> String>(
    items: Seq<T>,
    f: F,
    sep: Seq<char>,
    r: Seq<char>,
    parts: Seq<String>,
) -> bool {
    &&& parts.len() == items.len()
    &&& forall|i: int|
        0 <= i < parts.len() ==> call_ensures(f, (&items[i],), #[trigger] parts[i])
    &&& r == join_seqs(parts.map(|i: int, s: String| s@), sep)
}

/// The joining capability: renders the items that a value produces as one
/// separator-joined string.
///
/// Both operations consume the producer's items eagerly and fully, in
/// production order, and place the separator strictly between consecutive
/// items. `join` is `join_format` with the canonical conversion supplied
/// automatically.
pub trait Join {
    type Item;

    /// The items this value produces, in production order.
    spec fn items(&self) -> Seq<Self::Item>;

    /// Returns a string that contains the items separated by the separator
    /// string, each item in its canonical string form.
    fn join(&mut self, sep: &str) -> (r: String) where Self::Item: Canonical
        ensures
            final(self).items() == old(self).items(),
            r@ == join_seqs(old(self).items().map(|i: int, x: Self::Item| x.canon()), sep@),
    ;

    /// Works like [`Join::join`] but takes an additional formatting closure
    /// as argument: each item's string is whatever the closure returned for
    /// it, joined in production order with `sep` between consecutive items.
    fn join_format<F: Fn(&Self::Item) -> String>(&mut self, sep: &str, f: F) -> (r: String)
        requires
            forall|i: int|
                0 <= i < old(self).items().len() ==> call_requires(f, (&old(self).items()[i],)),
        ensures
            final(self).items() == old(self).items(),
            exists|parts: Seq<String>| join_format_witness(old(self).items(), f, sep@, r@, parts),
    ;
}

impl<T> Join for Vec<T> {
    type Item = T;

    open spec fn items(&self) -> Seq<T> {
        self@
    }

    fn join(&mut self, sep: &str) -> (r: String) where T: Canonical {
        let fmt = |x: &T| -> (s: String)
            ensures
                s@ == x.canon(),
            { x.canonical_string() };
        let r = self.join_format(sep, fmt);
        proof {
            let parts = choose|parts: Seq<String>|
                join_format_witness(old(self)@, fmt, sep@, r@, parts);
            lemma_join_canonical(old(self)@, parts, sep@);
        }
        r
    }

    fn join_format<F: Fn(&T) -> String>(&mut self, sep: &str, f: F) -> (r: String) {
        let mut accum = String::new();
        let ghost mut parts: Seq<String> = Seq::empty();
        let mut index: usize = 0;
        while index < self.len()
            invariant
                self@ == old(self)@,
                index <= self@.len(),
                parts.len() == index,
                forall|i: int|
                    0 <= i < old(self)@.len() ==> call_requires(f, (&old(self).items()[i],)),
                forall|i: int|
                    0 <= i < index ==> call_ensures(f, (&old(self).items()[i],), #[trigger] parts[i]),
                accum@ == join_seqs(parts.map(|i: int, s: String| s@), sep@),
            decreases self@.len() - index,
        {
            if index != 0 {
                accum.append(sep);
            }
            let item_str = f(&self[index]);
            accum.append(item_str.as_str());
            proof {
                let ghost prior = parts;
                parts = parts.push(item_str);
                assert(parts.map(|i: int, s: String| s@) =~= prior.map(|i: int, s: String| s@)
                    .push(item_str@));
                lemma_join_push(prior.map(|i: int, s: String| s@), sep@, item_str@);
            }
            index += 1;
        }
        proof {
            assert(join_format_witness(old(self)@, f, sep@, accum@, parts));
        }
        accum
    }
}

} // verus!
