//! Completion of a partly typed command line.

use vstd::prelude::*;

verus! {

/// The character sequences of a list of strings.
pub open spec fn texts(all: Seq<String>) -> Seq<Seq<char>> {
    all.map_values(|s: String| s@)
}

/// The lists joined one after another, in order.
pub open spec fn joined(parts: Seq<Seq<Seq<char>>>) -> Seq<Seq<char>>
    decreases parts.len(),
{
    if parts.len() == 0 {
        Seq::<Seq<char>>::empty()
    } else {
        joined(parts.drop_last()) + parts.last()
    }
}

/// A source of completions for a prefix of a command line.
pub trait Completer {
    /// Whether `all` is a list of completions of `prefix` that this source
    /// can offer, best first. A source that does not say offers any list.
    open spec fn offers(&self, prefix: Seq<char>, all: Seq<Seq<char>>) -> bool {
        true
    }

    /// Every completion of `prefix` that this source offers, best first.
    fn complete(&self, prefix: &str) -> (all: Vec<String>)
        ensures
            self.offers(prefix@, texts(all@)),
    ;

    /// The best completion of `prefix`, if there is one: the first of the
    /// completions that `complete` gives.
    fn complete_one(&self, prefix: &str) -> (best: Option<String>)
        ensures
            exists|all: Seq<Seq<char>>|
                #[trigger] self.offers(prefix@, all) && if all.len() > 0 {
                    best matches Some(s) && s@ == all[0]
                } else {
                    best is None
                },
    {
        let mut all = self.complete(prefix);
        let ghost offered = texts(all@);
        if all.len() > 0 {
            let best = all.remove(0);
            proof {
                assert(offered[0] == best@);
            }
            Some(best)
        } else {
            None
        }
    }
}

/// A completer that gathers the completions of several others, in the order
/// they were added.
pub struct Composite<C> {
    completers: Vec<C>,
}

impl<C: Completer> Composite<C> {
    /// The completers gathered, in the order they were added.
    pub closed spec fn members(&self) -> Seq<C> {
        self.completers@
    }

    /// A composite of no completers.
    pub fn new() -> (c: Self)
        ensures
            c.members() == Seq::<C>::empty(),
    {
        Self { completers: Vec::new() }
    }

    /// Add a completer after the ones already gathered.
    pub fn add(&mut self, completer: C)
        ensures
            final(self).members() == old(self).members().push(completer),
    {
        self.completers.push(completer);
    }
}

impl<C: Completer> Default for Composite<C> {
    fn default() -> (c: Self)
        ensures
            c.members() == Seq::<C>::empty(),
    {
        Self::new()
    }
}

impl<C: Completer> Completer for Composite<C> {
    /// The completions of a composite are those of each completer gathered,
    /// one list after another in the order they were added.
    open spec fn offers(&self, prefix: Seq<char>, all: Seq<Seq<char>>) -> bool {
        exists|parts: Seq<Seq<Seq<char>>>|
            {
                &&& parts.len() == self.members().len()
                &&& forall|i: int|
                    0 <= i < parts.len() ==> #[trigger] self.members()[i].offers(prefix, parts[i])
                &&& all == joined(parts)
            }
    }

    fn complete(&self, prefix: &str) -> (all: Vec<String>) {
        let mut all: Vec<String> = Vec::new();
        let ghost mut parts: Seq<Seq<Seq<char>>> = Seq::empty();
        let mut i: usize = 0;
        proof {
            assert(texts(all@) =~= joined(parts));
        }
        while i < self.completers.len()
            invariant
                i <= self.completers.len(),
                self.members() == self.completers@,
                parts.len() == i,
                forall|j: int| 0 <= j < i ==> #[trigger] self.members()[j].offers(prefix@, parts[j]),
                texts(all@) == joined(parts),
            decreases self.completers.len() - i,
        {
            let mut some = self.completers[i].complete(prefix);
            let ghost got = texts(some@);
            let ghost before = all@;
            all.append(&mut some);
            proof {
                let old_parts = parts;
                parts = parts.push(got);
                assert(parts.drop_last() =~= old_parts);
                assert(texts(all@) =~= texts(before) + got);
                assert forall|j: int| 0 <= j < i + 1 implies #[trigger] self.members()[j].offers(
                    prefix@,
                    parts[j],
                ) by {
                    if j < i {
                        assert(parts[j] == old_parts[j]);
                    }
                }
            }
            i += 1;
        }
        proof {
            assert(self.offers(prefix@, texts(all@)));
        }
        all
    }
}

/// A completer that offers one fixed completion of every prefix, for
/// trying the editor out.
pub struct TestCompleter;

impl Completer for TestCompleter {
    /// The one completion is the prefix followed by ` - test completer`.
    open spec fn offers(&self, prefix: Seq<char>, all: Seq<Seq<char>>) -> bool {
        all == seq![prefix + " - test completer"@]
    }

    fn complete(&self, prefix: &str) -> (all: Vec<String>)
        ensures
            all@.len() == 1,
            all@[0]@ == prefix@ + " - test completer"@,
    {
        let mut completion = String::from_str(prefix);
        completion.append(" - test completer");
        let all = vec![completion];
        proof {
            assert(texts(all@) =~= seq![prefix@ + " - test completer"@]);
        }
        all
    }
}

} // verus!
