//! The answers collected for a recipe's inputs: a map from input id to value,
//! which templates are rendered against.
use vstd::prelude::*;
use crate::text::owned;

verus! {

/// One answer: text (text, password and select inputs), a number, or a flag.
#[derive(Debug, Clone)]
pub enum ContextValue {
    Text(String),
    Number(i64),
    Bool(bool),
}

/// The mathematical value of a `ContextValue`.
pub enum ValueView {
    Text(Seq<char>),
    Number(int),
    Bool(bool),
}

impl View for ContextValue {
    type V = ValueView;

    open spec fn view(&self) -> ValueView {
        match self {
            ContextValue::Text(s) => ValueView::Text(s@),
            ContextValue::Number(n) => ValueView::Number(*n as int),
            ContextValue::Bool(b) => ValueView::Bool(*b),
        }
    }
}

/// The map that a list of (id, value) entries denotes: entries are applied in
/// order, so a later entry for an id replaces an earlier one.
pub open spec fn entries_map(s: Seq<(String, ContextValue)>) -> Map<Seq<char>, ValueView>
    decreases s.len(),
{
    if s.len() == 0 {
        Map::empty()
    } else {
        entries_map(s.drop_last()).insert(s.last().0@, s.last().1@)
    }
}

/// Answers by input id, in the order they were given.
#[derive(Debug, Clone)]
pub struct InputContext {
    pub entries: Vec<(String, ContextValue)>,
}

impl View for InputContext {
    type V = Map<Seq<char>, ValueView>;

    open spec fn view(&self) -> Map<Seq<char>, ValueView> {
        entries_map(self.entries@)
    }
}

/// When no entry from index `i` on has id `k`, the prefix before `i` already
/// decides what the entries say of `k`.
pub proof fn lemma_entries_prefix(s: Seq<(String, ContextValue)>, i: int, k: Seq<char>)
    requires
        0 <= i <= s.len(),
        forall|j: int| i <= j < s.len() ==> (#[trigger] s[j]).0@ != k,
    ensures
        entries_map(s).contains_key(k) == entries_map(s.take(i)).contains_key(k),
        entries_map(s).contains_key(k) ==> entries_map(s)[k] == entries_map(s.take(i))[k],
    decreases s.len() - i,
{
    if i < s.len() {
        assert(s.drop_last().take(i) =~= s.take(i));
        lemma_entries_prefix(s.drop_last(), i, k);
    } else {
        assert(s.take(i) =~= s);
    }
}

impl InputContext {
    /// A context with no answers.
    pub fn new() -> (c: InputContext)
        ensures
            c@ == Map::<Seq<char>, ValueView>::empty(),
    {
        InputContext { entries: Vec::new() }
    }

    /// Records `value` as the answer for `id`, replacing any earlier one.
    pub fn insert(&mut self, id: String, value: ContextValue)
        ensures
            final(self)@ == old(self)@.insert(id@, value@),
    {
        let ghost before = self.entries@;
        self.entries.push((id, value));
        assert(self.entries@.drop_last() =~= before);
    }

    /// The answer recorded for `id`, if any.
    pub fn get(&self, id: &str) -> (r: Option<&ContextValue>)
        ensures
            r is Some <==> self@.contains_key(id@),
            r matches Some(v) ==> v@ == self@[id@],
    {
        let key = owned(id);
        let mut i: usize = self.entries.len();
        while i > 0
            invariant
                key@ == id@,
                i <= self.entries.len(),
                forall|j: int| i <= j < self.entries.len() ==> (#[trigger] self.entries@[j]).0@ != id@,
            decreases i,
        {
            let same = self.entries[i - 1].0.eq(&key);
            if same {
                proof {
                    let s = self.entries@;
                    lemma_entries_prefix(s, i as int, id@);
                    assert(s.take(i as int).drop_last() =~= s.take(i - 1));
                    assert(s.take(i as int).last() == s[i - 1]);
                }
                return Some(&self.entries[i - 1].1);
            }
            i = i - 1;
        }
        proof {
            lemma_entries_prefix(self.entries@, 0, id@);
        }
        None
    }
}

} // verus!
