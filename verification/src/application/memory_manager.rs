//! Which memories a session offers to the model.

use vstd::prelude::*;
use crate::application::prompt_builder::nonblank_trimmed;
use crate::domain::content::{blocks_view, BlockView, ContentBlock};
use crate::domain::memory::{Memory, MemoryView, SessionMemoryState};
use crate::text::{join, join_strings, str_eq, trim, trim_str};

verus! {

/// Chooses and prepares the memories of a session.
pub struct MemoryManager;

/// The memories of `s` with every memory whose id already occurred left out.
pub open spec fn first_by_id(s: Seq<MemoryView>) -> Seq<MemoryView>
    decreases s.len(),
{
    if s.len() == 0 {
        Seq::empty()
    } else {
        first_by_id(s.drop_last()) + if id_taken(first_by_id(s.drop_last()), s.last().id@) {
            Seq::empty()
        } else {
            seq![s.last()]
        }
    }
}

/// Whether some memory of `s` has the id `id`.
pub open spec fn id_taken(s: Seq<MemoryView>, id: Seq<char>) -> bool {
    exists|i: int| 0 <= i < s.len() && s[i].id@ == id
}

/// The views of a sequence of memories.
pub open spec fn memories_view(v: Seq<Memory>) -> Seq<MemoryView> {
    v.map_values(|m: Memory| m@)
}

/// The number of memories offered when the limit is `limit`: at least one is taken
/// before the limit is looked at.
pub open spec fn merge_count(limit: usize, available: nat) -> nat {
    let cap: nat = if limit == 0 { 1 } else { limit as nat };
    if cap <= available { cap } else { available }
}

/// The explicit texts of the blocks, in order.
pub open spec fn explicit_texts(bs: Seq<BlockView>) -> Seq<Seq<char>>
    decreases bs.len(),
{
    if bs.len() == 0 {
        Seq::empty()
    } else {
        explicit_texts(bs.drop_last()) + match bs.last() {
            BlockView::Text { text } => seq![text],
            _ => Seq::empty(),
        }
    }
}

/// The search query for a turn: its non-blank typed texts, trimmed, one per line.
pub open spec fn memory_query(bs: Seq<BlockView>) -> Seq<char> {
    join(nonblank_trimmed(explicit_texts(bs)), "\n"@)
}

proof fn lemma_first_by_id_prefix(s: Seq<MemoryView>, n: int)
    requires
        0 <= n <= s.len(),
    ensures
        first_by_id(s.take(n)).len() <= first_by_id(s).len(),
        first_by_id(s).take(first_by_id(s.take(n)).len() as int) == first_by_id(s.take(n)),
    decreases s.len() - n,
{
    if n == s.len() {
        assert(s.take(n) =~= s);
        assert(first_by_id(s).take(first_by_id(s).len() as int) =~= first_by_id(s));
    } else {
        lemma_first_by_id_prefix(s, n + 1);
        let a = first_by_id(s.take(n));
        let b = first_by_id(s.take(n + 1));
        assert(s.take(n + 1).drop_last() =~= s.take(n));
        let full = first_by_id(s);
        assert(b.take(a.len() as int) =~= a);
        assert(full.take(a.len() as int) =~= full.take(b.len() as int).take(a.len() as int));
    }
}

fn id_in(v: &Vec<Memory>, id: &str) -> (r: bool)
    ensures
        r == id_taken(memories_view(v@), id@),
{
    let ghost mv = memories_view(v@);
    let mut i: usize = 0;
    while i < v.len()
        invariant
            i <= v.len(),
            mv == memories_view(v@),
            forall|j: int| 0 <= j < i ==> mv[j].id@ != id@,
        decreases v.len() - i,
    {
        if str_eq(v[i].id.as_str(), id) {
            assert(mv[i as int].id@ == id@);
            return true;
        }
        i += 1;
    }
    false
}

impl MemoryManager {
    /// The session's bootstrap memories followed by its turn memories, each id once
    /// (its first occurrence), stopping as soon as `limit` memories are taken; at least
    /// one memory is taken when there is one.
    pub fn merged_prompt_memories(state: &SessionMemoryState, limit: usize) -> (r: Vec<Memory>)
        ensures
            ({
                let all = first_by_id(memories_view(state.bootstrap_memories@ + state.last_turn_memories@));
                memories_view(r@) == all.take(merge_count(limit, all.len()) as int)
            }),
    {
        let mut chain: Vec<Memory> = Vec::new();
        let mut i: usize = 0;
        while i < state.bootstrap_memories.len()
            invariant
                i <= state.bootstrap_memories.len(),
                memories_view(chain@) == memories_view(state.bootstrap_memories@.take(i as int)),
            decreases state.bootstrap_memories.len() - i,
        {
            let ghost b = memories_view(chain@);
            chain.push(state.bootstrap_memories[i].clone());
            assert(memories_view(chain@) =~= b.push(state.bootstrap_memories@[i as int]@));
            assert(state.bootstrap_memories@.take(i + 1) =~= state.bootstrap_memories@.take(i as int).push(
                state.bootstrap_memories@[i as int],
            ));
            i += 1;
        }
        let mut i: usize = 0;
        while i < state.last_turn_memories.len()
            invariant
                i <= state.last_turn_memories.len(),
                state.bootstrap_memories@.take(state.bootstrap_memories.len() as int) == state.bootstrap_memories@,
                memories_view(chain@) == memories_view(state.bootstrap_memories@ + state.last_turn_memories@.take(i as int)),
            decreases state.last_turn_memories.len() - i,
        {
            let ghost b = memories_view(chain@);
            chain.push(state.last_turn_memories[i].clone());
            assert(memories_view(chain@) =~= b.push(state.last_turn_memories@[i as int]@));
            assert(state.bootstrap_memories@ + state.last_turn_memories@.take(i + 1) =~= (state.bootstrap_memories@
                + state.last_turn_memories@.take(i as int)).push(state.last_turn_memories@[i as int]));
            i += 1;
        }
        assert(state.last_turn_memories@.take(i as int) =~= state.last_turn_memories@);
        let ghost all_in = memories_view(chain@);
        assert(all_in == memories_view(state.bootstrap_memories@ + state.last_turn_memories@));
        let mut merged: Vec<Memory> = Vec::new();
        let mut k: usize = 0;
        while k < chain.len()
            invariant
                k <= chain.len(),
                all_in == memories_view(chain@),
                all_in == memories_view(state.bootstrap_memories@ + state.last_turn_memories@),
                memories_view(merged@) == first_by_id(all_in.take(k as int)),
                k > 0 ==> merged.len() < limit,
            decreases chain.len() - k,
        {
            assert(all_in.take(k + 1).drop_last() =~= all_in.take(k as int));
            let ghost b = memories_view(merged@);
            if !id_in(&merged, chain[k].id.as_str()) {
                merged.push(chain[k].clone());
                assert(memories_view(merged@) =~= b + seq![all_in[k as int]]);
            } else {
                assert(b + Seq::<MemoryView>::empty() =~= b);
            }
            if merged.len() >= limit {
                proof {
                    lemma_first_by_id_prefix(all_in, k + 1);
                    let all = first_by_id(all_in);
                    assert(merged.len() == merge_count(limit, all.len()));
                    assert(memories_view(merged@) == all.take(merge_count(limit, all.len()) as int));
                }
                return merged;
            }
            k += 1;
        }
        assert(all_in.take(k as int) =~= all_in);
        proof {
            let all = first_by_id(all_in);
            assert(all.take(all.len() as int) =~= all);
        }
        merged
    }

    /// The query that searches a turn's memories: the non-blank texts that the user typed,
    /// trimmed, one per line. File contents and images take no part.
    pub fn turn_memory_query(content: &[ContentBlock]) -> (r: String)
        ensures
            r@ == memory_query(blocks_view(content@)),
    {
        let ghost bv = blocks_view(content@);
        let mut texts: Vec<String> = Vec::new();
        let mut i: usize = 0;
        while i < content.len()
            invariant
                i <= content.len(),
                bv == blocks_view(content@),
                texts.deep_view() == nonblank_trimmed(explicit_texts(bv.take(i as int))),
            decreases content.len() - i,
        {
            assert(bv.take(i + 1).drop_last() =~= bv.take(i as int));
            assert(bv.take(i + 1).last() == content@[i as int]@);
            let ghost b = texts.deep_view();
            let ghost prev = explicit_texts(bv.take(i as int));
            match content[i].explicit_text() {
                Some(text) => {
                    let t = trim_str(text);
                    assert(explicit_texts(bv.take(i + 1)) =~= prev.push(text@));
                    assert(prev.push(text@).drop_last() =~= prev);
                    if !t.as_str().is_empty() {
                        texts.push(t);
                        assert(texts.deep_view() =~= b.push(trim(text@)));
                    } else {
                        assert(b + Seq::<Seq<char>>::empty() =~= b);
                    }
                },
                None => {
                    assert(explicit_texts(bv.take(i + 1)) =~= prev);
                },
            }
            i += 1;
        }
        assert(bv.take(i as int) =~= bv);
        join_strings(&texts, "\n")
    }
}

/// The memories a prompt is given hold each id once, and, when the limit is not zero, at
/// most `limit` of them.
pub proof fn lemma_merged_memories_distinct(s: Seq<MemoryView>, limit: usize)
    ensures
        forall|i: int, j: int|
            0 <= i < j < first_by_id(s).len() ==> (#[trigger] first_by_id(s)[i]).id@ != (#[trigger] first_by_id(s)[j]).id@,
        limit > 0 ==> merge_count(limit, first_by_id(s).len()) <= limit,
    decreases s.len(),
{
    if s.len() > 0 {
        lemma_merged_memories_distinct(s.drop_last(), limit);
        let front = first_by_id(s.drop_last());
        if !id_taken(front, s.last().id@) {
            let all = first_by_id(s);
            assert(all == front.push(s.last()));
            assert forall|i: int, j: int| 0 <= i < j < all.len() implies (#[trigger] all[i]).id@ != (#[trigger] all[j]).id@ by {
                if j == front.len() {
                    assert(all[i] == front[i]);
                    if front[i].id@ == s.last().id@ {
                        assert(id_taken(front, s.last().id@));
                    }
                } else {
                    assert(all[i] == front[i] && all[j] == front[j]);
                }
            }
        } else {
            assert(first_by_id(s) =~= front);
        }
    }
}

} // verus!
