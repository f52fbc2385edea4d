use vstd::prelude::*;
use vstd::hash_map::StringHashMap;

verus! {

/// The map a pair list denotes when its pairs are inserted in order:
/// a later pair with the same name wins.
pub open spec fn overlay(
    m: Map<Seq<char>, Seq<char>>,
    ps: Seq<(String, String)>,
) -> Map<Seq<char>, Seq<char>>
    decreases ps.len(),
{
    if ps.len() == 0 {
        m
    } else {
        overlay(m, ps.drop_last()).insert(ps.last().0@, ps.last().1@)
    }
}

/// The map a pair list denotes on its own.
pub open spec fn pairs_map(ps: Seq<(String, String)>) -> Map<Seq<char>, Seq<char>> {
    overlay(Map::empty(), ps)
}

/// The immutable name-to-value mapping used for path-expression
/// substitution. Built once at startup from the process environment plus
/// explicitly injected values; read-only thereafter.
pub struct VarEnv {
    vars: StringHashMap<String>,
}

impl View for VarEnv {
    type V = Map<Seq<char>, Seq<char>>;

    closed spec fn view(&self) -> Map<Seq<char>, Seq<char>> {
        Map::new(
            |k: Seq<char>| self.vars@.dom().contains(k),
            |k: Seq<char>| self.vars@[k]@,
        )
    }
}

impl VarEnv {
    /// An environment with no variables at all.
    pub fn new() -> (r: Self)
        ensures
            r@ == Map::<Seq<char>, Seq<char>>::empty(),
    {
        let r = VarEnv { vars: StringHashMap::new() };
        proof {
            assert(r@ =~= Map::<Seq<char>, Seq<char>>::empty());
        }
        r
    }

    /// Sets one variable, replacing any earlier value of the same name.
    pub fn set(&mut self, name: String, value: String)
        ensures
            final(self)@ == old(self)@.insert(name@, value@),
    {
        let ghost before = self@;
        self.vars.insert(name, value);
        proof {
            assert(self@ =~= before.insert(name@, value@));
        }
    }

    /// Looks a variable up; `None` when the name has no value in any layer.
    pub fn lookup<'a>(&'a self, name: &str) -> (r: Option<&'a String>)
        ensures
            match r {
                Some(v) => self@.contains_key(name@) && v@ == self@[name@],
                None => !self@.contains_key(name@),
            },
    {
        self.vars.get(name)
    }

    /// Overlays every pair of `pairs` in order: a later pair with the same
    /// name wins over an earlier one and over anything already set.
    pub fn set_pairs(&mut self, pairs: &Vec<(String, String)>)
        ensures
            final(self)@ == overlay(old(self)@, pairs@),
    {
        let ghost orig = self@;
        let mut i: usize = 0;
        while i < pairs.len()
            invariant
                i <= pairs@.len(),
                self@ == overlay(orig, pairs@.take(i as int)),
            decreases pairs@.len() - i,
        {
            let name = pairs[i].0.clone();
            let value = pairs[i].1.clone();
            self.set(name, value);
            proof {
                let t = pairs@.take(i as int + 1);
                assert(t.drop_last() =~= pairs@.take(i as int));
                assert(t.last() == pairs@[i as int]);
            }
            i += 1;
        }
        proof {
            assert(pairs@.take(pairs@.len() as int) =~= pairs@);
        }
    }
}

/// Builds the startup environment: the process environment pairs as the
/// base layer, overlaid with the explicitly injected pairs (at minimum the
/// timestamp and the hostname). Within one list, a later pair wins.
pub fn build_environment(base: &Vec<(String, String)>, explicit: &Vec<(String, String)>) -> (r:
    VarEnv)
    ensures
        r@ == overlay(pairs_map(base@), explicit@),
{
    let mut env = VarEnv::new();
    env.set_pairs(base);
    env.set_pairs(explicit);
    env
}

/// Law: explicitly injected values take precedence. At every name the
/// overlaid pairs define, the overlaid environment reads the pairs' value;
/// at every other name it reads the base map unchanged.
pub proof fn lemma_overlay_precedence(
    m: Map<Seq<char>, Seq<char>>,
    ps: Seq<(String, String)>,
    k: Seq<char>,
)
    ensures
        pairs_map(ps).contains_key(k) ==> overlay(m, ps).contains_key(k) && overlay(m, ps)[k]
            == pairs_map(ps)[k],
        !pairs_map(ps).contains_key(k) ==> overlay(m, ps).contains_key(k) == m.contains_key(k) && (
        m.contains_key(k) ==> overlay(m, ps)[k] == m[k]),
    decreases ps.len(),
{
    if ps.len() > 0 {
        lemma_overlay_precedence(m, ps.drop_last(), k);
        lemma_overlay_precedence(Map::empty(), ps.drop_last(), k);
    }
}

} // verus!
