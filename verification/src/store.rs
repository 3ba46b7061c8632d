//! A model of the external named-set index that the emitted commands target,
//! with the convergence law the command model promises: replaying a command
//! sequence leaves the same membership as applying it once.

use crate::model::{CmdSpec, CRDTCommand};
use vstd::prelude::*;

verus! {

/// What one command does to the membership of one (set, member) pair:
/// an add settles it true, a remove settles it false, any other command
/// leaves it alone.
pub open spec fn cmd_effect(c: CmdSpec, k: Seq<char>, x: Seq<char>, before: bool) -> bool {
    match c {
        CmdSpec::Add(ck, cx) => {
            if ck == k && cx == x {
                true
            } else {
                before
            }
        },
        CmdSpec::Remove(ck, cx) => {
            if ck == k && cx == x {
                false
            } else {
                before
            }
        },
    }
}

/// The membership of one pair after a whole command sequence ran, first
/// command first, starting from `before`.
pub open spec fn seq_effect(s: Seq<CmdSpec>, k: Seq<char>, x: Seq<char>, before: bool) -> bool
    decreases s.len(),
{
    if s.len() == 0 {
        before
    } else {
        seq_effect(s.skip(1), k, x, cmd_effect(s[0], k, x, before))
    }
}

/// Whether some command of the sequence addresses the pair at all.
pub open spec fn touches(s: Seq<CmdSpec>, k: Seq<char>, x: Seq<char>) -> bool {
    exists|i: int|
        0 <= i < s.len() && match #[trigger] s[i] {
            CmdSpec::Add(ck, cx) => ck == k && cx == x,
            CmdSpec::Remove(ck, cx) => ck == k && cx == x,
        }
}

/// A sequence that never addresses a pair leaves its membership alone.
pub proof fn lemma_untouched_keeps(s: Seq<CmdSpec>, k: Seq<char>, x: Seq<char>, before: bool)
    requires
        !touches(s, k, x),
    ensures
        seq_effect(s, k, x, before) == before,
    decreases s.len(),
{
    if s.len() > 0 {
        assert(cmd_effect(s[0], k, x, before) == before);
        assert(!touches(s.skip(1), k, x)) by {
            if touches(s.skip(1), k, x) {
                let i = choose|i: int|
                    0 <= i < s.skip(1).len() && match #[trigger] s.skip(1)[i] {
                        CmdSpec::Add(ck, cx) => ck == k && cx == x,
                        CmdSpec::Remove(ck, cx) => ck == k && cx == x,
                    };
                assert(s.skip(1)[i] == s[i + 1]);
            }
        }
        lemma_untouched_keeps(s.skip(1), k, x, before);
    }
}

/// Once some command of the sequence addresses the pair, the start state no
/// longer matters: the last such command decides.
pub proof fn lemma_touched_settles(
    s: Seq<CmdSpec>,
    k: Seq<char>,
    x: Seq<char>,
    b1: bool,
    b2: bool,
)
    requires
        touches(s, k, x),
    ensures
        seq_effect(s, k, x, b1) == seq_effect(s, k, x, b2),
    decreases s.len(),
{
    let i = choose|i: int|
        0 <= i < s.len() && match #[trigger] s[i] {
            CmdSpec::Add(ck, cx) => ck == k && cx == x,
            CmdSpec::Remove(ck, cx) => ck == k && cx == x,
        };
    if i == 0 {
        assert(cmd_effect(s[0], k, x, b1) == cmd_effect(s[0], k, x, b2));
    } else {
        assert(touches(s.skip(1), k, x)) by {
            assert(s.skip(1)[i - 1] == s[i]);
        }
        lemma_touched_settles(s.skip(1), k, x, cmd_effect(s[0], k, x, b1), cmd_effect(s[0], k, x, b2));
    }
}

/// Replaying a command sequence does not move any membership it already
/// settled: the command model is idempotent under replay. In particular a
/// sequence applied twice to an empty store leaves the same membership as
/// applied once.
pub proof fn lemma_replay_idempotent(s: Seq<CmdSpec>, k: Seq<char>, x: Seq<char>, before: bool)
    ensures
        seq_effect(s, k, x, seq_effect(s, k, x, before)) == seq_effect(s, k, x, before),
{
    if touches(s, k, x) {
        lemma_touched_settles(s, k, x, seq_effect(s, k, x, before), before);
    } else {
        lemma_untouched_keeps(s, k, x, before);
        lemma_untouched_keeps(s, k, x, seq_effect(s, k, x, before));
    }
}

/// An executable named-set store, as the storage applier would keep it:
/// one entry per set name, one slot per member, no duplicate entries.
pub struct NamedSetStore {
    entries: Vec<(String, Vec<String>)>,
}

/// No two entries of the list share a set name.
spec fn keys_unique(es: Seq<(String, Vec<String>)>) -> bool {
    forall|i1: int, i2: int|
        0 <= i1 < i2 < es.len() ==> (#[trigger] es[i1]).0@ != (#[trigger] es[i2]).0@
}

/// Whether the entry list holds `x` under the set name `k`.
spec fn mem_in(es: Seq<(String, Vec<String>)>, k: Seq<char>, x: Seq<char>) -> bool {
    exists|i: int, j: int|
        0 <= i < es.len() && 0 <= j < es[i].1@.len() && es[i].0@ == k && (#[trigger] es[i].1@[j])@
            == x
}

impl NamedSetStore {
    /// Every set name owns exactly one entry.
    pub closed spec fn wf(&self) -> bool {
        keys_unique(self.entries@)
    }

    /// Whether `x` is currently a member of the set named `k`.
    pub closed spec fn mem_spec(&self, k: Seq<char>, x: Seq<char>) -> bool {
        mem_in(self.entries@, k, x)
    }

    /// A fresh store holds nothing.
    pub fn new() -> (s: NamedSetStore)
        ensures
            s.wf(),
            forall|k: Seq<char>, x: Seq<char>| !s.mem_spec(k, x),
    {
        NamedSetStore { entries: Vec::new() }
    }

    /// Whether `x` is a member of the set named `k`.
    pub fn contains(&self, k: &String, x: &String) -> (r: bool)
        ensures
            r == self.mem_spec(k@, x@),
    {
        let mut i: usize = 0;
        while i < self.entries.len()
            invariant
                i <= self.entries@.len(),
                forall|i2: int, j2: int|
                    0 <= i2 < i && 0 <= j2 < self.entries@[i2].1@.len() ==> !(self.entries@[i2].0@
                        == k@ && (#[trigger] self.entries@[i2].1@[j2])@ == x@),
            decreases self.entries@.len() - i,
        {
            if self.entries[i].0.eq(k) {
                let members = &self.entries[i].1;
                let mut j: usize = 0;
                while j < members.len()
                    invariant
                        j <= members@.len(),
                        members@ == self.entries@[i as int].1@,
                        i < self.entries@.len(),
                        self.entries@[i as int].0@ == k@,
                        forall|j2: int| 0 <= j2 < j ==> (#[trigger] members@[j2])@ != x@,
                    decreases members@.len() - j,
                {
                    if members[j].eq(x) {
                        return true;
                    }
                    j = j + 1;
                }
            }
            i = i + 1;
        }
        false
    }

    fn add_member(&mut self, k: &String, x: &String)
        requires
            old(self).wf(),
        ensures
            final(self).wf(),
            forall|k2: Seq<char>, x2: Seq<char>|
                final(self).mem_spec(k2, x2) == (old(self).mem_spec(k2, x2) || (k2 == k@ && x2
                    == x@)),
    {
        let mut i: usize = 0;
        let n = self.entries.len();
        while i < n
            invariant
                i <= n,
                n == self.entries@.len(),
                self.wf(),
                forall|k2: Seq<char>, x2: Seq<char>| #[trigger]
                self.mem_spec(k2, x2) == old(self).mem_spec(k2, x2),
                forall|i2: int| 0 <= i2 < i ==> (#[trigger] self.entries@[i2]).0@ != k@,
            decreases n - i,
        {
            if self.entries[i].0.eq(k) {
                if !self.contains(k, x) {
                    let ghost prev = *self;
                    let ghost snap = self.entries@;
                    self.entries[i].1.push(x.clone());
                    proof {
                        let li = i as int;
                        assert(keys_unique(snap));
                        assert forall|i3: int, i4: int|
                            0 <= i3 < i4 < self.entries@.len() implies (
                        #[trigger] self.entries@[i3]).0@ != (#[trigger] self.entries@[i4]).0@ by {
                            assert(self.entries@[i3].0@ == snap[i3].0@);
                            assert(self.entries@[i4].0@ == snap[i4].0@);
                        }
                        let newlen = self.entries@[li].1@.len();
                        assert forall|k2: Seq<char>, x2: Seq<char>|
                            self.mem_spec(k2, x2) == (old(self).mem_spec(k2, x2) || (k2 == k@ && x2
                                == x@)) by {
                            assert(prev.mem_spec(k2, x2) == old(self).mem_spec(k2, x2));
                            assert(prev.mem_spec(k2, x2) == mem_in(snap, k2, x2));
                            if k2 == k@ && x2 == x@ {
                                assert(self.entries@[li].1@[newlen - 1]@ == x@);
                                assert(self.mem_spec(k2, x2));
                            } else {
                                if mem_in(snap, k2, x2) {
                                    let (i2, j2) = choose|i2: int, j2: int|
                                        0 <= i2 < snap.len() && 0 <= j2 < snap[i2].1@.len()
                                            && snap[i2].0@ == k2 && (#[trigger] snap[i2].1@[j2])@
                                            == x2;
                                    assert(self.entries@[i2].1@[j2]@ == x2);
                                    assert(self.mem_spec(k2, x2));
                                }
                                if self.mem_spec(k2, x2) {
                                    let (i2, j2) = choose|i2: int, j2: int|
                                        0 <= i2 < self.entries@.len() && 0 <= j2
                                            < self.entries@[i2].1@.len()
                                            && self.entries@[i2].0@ == k2 && (
                                        #[trigger] self.entries@[i2].1@[j2])@ == x2;
                                    if i2 == li && j2 == newlen - 1 {
                                        assert(false);
                                    } else {
                                        assert(snap[i2].1@[j2]@ == x2);
                                        assert(mem_in(snap, k2, x2));
                                    }
                                }
                            }
                        }
                    }
                }
                return ;
            }
            i = i + 1;
        }
        let ghost prev = *self;
        let ghost snap = self.entries@;
        let mut members: Vec<String> = Vec::new();
        members.push(x.clone());
        self.entries.push((k.clone(), members));
        proof {
            let li = self.entries@.len() - 1;
            assert(keys_unique(snap));
            assert(self.entries@[li].0@ == k@);
            assert forall|i1: int, i2: int|
                0 <= i1 < i2 < self.entries@.len() implies (#[trigger] self.entries@[i1]).0@ != (
            #[trigger] self.entries@[i2]).0@ by {
                if i2 == li {
                    assert(self.entries@[i1].0@ == snap[i1].0@);
                    assert(snap[i1].0@ != k@);
                } else {
                    assert(self.entries@[i1].0@ == snap[i1].0@);
                    assert(self.entries@[i2].0@ == snap[i2].0@);
                }
            }
            assert forall|k2: Seq<char>, x2: Seq<char>|
                self.mem_spec(k2, x2) == (old(self).mem_spec(k2, x2) || (k2 == k@ && x2
                    == x@)) by {
                assert(prev.mem_spec(k2, x2) == old(self).mem_spec(k2, x2));
                assert(prev.mem_spec(k2, x2) == mem_in(snap, k2, x2));
                if k2 == k@ && x2 == x@ {
                    assert(self.entries@[li].1@[0]@ == x@);
                    assert(self.mem_spec(k2, x2));
                } else {
                    if mem_in(snap, k2, x2) {
                        let (i2, j2) = choose|i2: int, j2: int|
                            0 <= i2 < snap.len() && 0 <= j2 < snap[i2].1@.len() && snap[i2].0@
                                == k2 && (#[trigger] snap[i2].1@[j2])@ == x2;
                        assert(self.entries@[i2].1@[j2]@ == x2);
                        assert(self.mem_spec(k2, x2));
                    }
                    if self.mem_spec(k2, x2) {
                        let (i2, j2) = choose|i2: int, j2: int|
                            0 <= i2 < self.entries@.len() && 0 <= j2 < self.entries@[i2].1@.len()
                                && self.entries@[i2].0@ == k2 && (
                            #[trigger] self.entries@[i2].1@[j2])@ == x2;
                        if i2 == li {
                            assert(self.entries@[li].1@.len() == 1);
                            assert(false);
                        } else {
                            assert(snap[i2].1@[j2]@ == x2);
                            assert(mem_in(snap, k2, x2));
                        }
                    }
                }
            }
        }
    }

    #[verifier::rlimit(50)]
    fn remove_member(&mut self, k: &String, x: &String)
        requires
            old(self).wf(),
        ensures
            final(self).wf(),
            forall|k2: Seq<char>, x2: Seq<char>|
                final(self).mem_spec(k2, x2) == (old(self).mem_spec(k2, x2) && !(k2 == k@ && x2
                    == x@)),
    {
        let mut i: usize = 0;
        let n = self.entries.len();
        while i < n
            invariant
                i <= n,
                n == self.entries@.len(),
                self.wf(),
                forall|k2: Seq<char>, x2: Seq<char>| #[trigger]
                self.mem_spec(k2, x2) == old(self).mem_spec(k2, x2),
                forall|i2: int| 0 <= i2 < i ==> (#[trigger] self.entries@[i2]).0@ != k@,
            decreases n - i,
        {
            if self.entries[i].0.eq(k) {
                let ghost prev = *self;
                let ghost snap = self.entries@;
                let ghost mseq = self.entries@[i as int].1@;
                let mut kept: Vec<String> = Vec::new();
                let members = &self.entries[i].1;
                let mut j: usize = 0;
                while j < members.len()
                    invariant
                        j <= members@.len(),
                        *self == prev,
                        self.entries@ == snap,
                        i < snap.len(),
                        members@ == mseq,
                        mseq == snap[i as int].1@,
                        forall|j2: int|
                            0 <= j2 < kept@.len() ==> (#[trigger] kept@[j2])@ != x@ && (exists|
                            j3: int|
                                0 <= j3 < j && (#[trigger] mseq[j3])@ == kept@[j2]@),
                        forall|j3: int|
                            0 <= j3 < j && (#[trigger] mseq[j3])@ != x@ ==> (exists|j2: int|
                                0 <= j2 < kept@.len() && (#[trigger] kept@[j2])@ == mseq[j3]@),
                    decreases members@.len() - j,
                {
                    let ghost prev_kept = kept@;
                    if !members[j].eq(x) {
                        kept.push(members[j].clone());
                        proof {
                            assert(kept@[kept@.len() - 1]@ == mseq[j as int]@);
                            assert forall|j3: int|
                                0 <= j3 < j + 1 && (#[trigger] mseq[j3])@ != x@ implies (exists|
                            j2: int|
                                0 <= j2 < kept@.len() && (#[trigger] kept@[j2])@ == mseq[j3]@) by {
                                if j3 == j {
                                    assert(kept@[kept@.len() - 1]@ == mseq[j3]@);
                                } else {
                                    let j2 = choose|j2: int|
                                        0 <= j2 < prev_kept.len() && (#[trigger] prev_kept[j2])@
                                            == mseq[j3]@;
                                    assert(kept@[j2]@ == mseq[j3]@);
                                }
                            }
                        }
                    }
                    j = j + 1;
                }
                self.entries[i].1 = kept;
                proof {
                    let li = i as int;
                    assert(keys_unique(snap)) by {
                        assert(prev.wf());
                    }
                    assert forall|i1: int, i2: int|
                        0 <= i1 < i2 < self.entries@.len() implies (
                    #[trigger] self.entries@[i1]).0@ != (#[trigger] self.entries@[i2]).0@ by {
                        assert(self.entries@[i1].0@ == snap[i1].0@);
                        assert(self.entries@[i2].0@ == snap[i2].0@);
                    }
                    assert forall|k2: Seq<char>, x2: Seq<char>|
                        self.mem_spec(k2, x2) == (old(self).mem_spec(k2, x2) && !(k2 == k@ && x2
                            == x@)) by {
                        assert(prev.mem_spec(k2, x2) == old(self).mem_spec(k2, x2));
                        assert(prev.mem_spec(k2, x2) == mem_in(snap, k2, x2));
                        if self.mem_spec(k2, x2) {
                            let (i2, j2) = choose|i2: int, j2: int|
                                0 <= i2 < self.entries@.len() && 0 <= j2
                                    < self.entries@[i2].1@.len() && self.entries@[i2].0@ == k2 && (
                                #[trigger] self.entries@[i2].1@[j2])@ == x2;
                            if i2 == li {
                                assert(kept@[j2]@ == x2);
                                assert(x2 != x@);
                                let j3 = choose|j3: int|
                                    0 <= j3 < mseq.len() && (#[trigger] mseq[j3])@ == kept@[j2]@;
                                assert(snap[li].1@[j3]@ == x2);
                                assert(mem_in(snap, k2, x2));
                            } else {
                                assert(snap[i2].1@[j2]@ == x2);
                                assert(mem_in(snap, k2, x2));
                            }
                        }
                        if mem_in(snap, k2, x2) && !(k2 == k@ && x2 == x@) {
                            let (i2, j2) = choose|i2: int, j2: int|
                                0 <= i2 < snap.len() && 0 <= j2 < snap[i2].1@.len() && snap[i2].0@
                                    == k2 && (#[trigger] snap[i2].1@[j2])@ == x2;
                            if i2 == li {
                                assert(k2 == k@);
                                assert(x2 != x@);
                                assert(mseq[j2]@ == x2);
                                let j4 = choose|j4: int|
                                    0 <= j4 < kept@.len() && (#[trigger] kept@[j4])@ == mseq[j2]@;
                                assert(self.entries@[li].1@[j4]@ == x2);
                                assert(self.mem_spec(k2, x2));
                            } else {
                                assert(self.entries@[i2].1@[j2]@ == x2);
                                assert(self.mem_spec(k2, x2));
                            }
                        }
                    }
                }
                return ;
            }
            i = i + 1;
        }
        proof {
            assert forall|k2: Seq<char>, x2: Seq<char>|
                self.mem_spec(k2, x2) == (old(self).mem_spec(k2, x2) && !(k2 == k@ && x2
                    == x@)) by {
                if self.mem_spec(k2, x2) && k2 == k@ && x2 == x@ {
                    let (i2, j2) = choose|i2: int, j2: int|
                        0 <= i2 < self.entries@.len() && 0 <= j2 < self.entries@[i2].1@.len()
                            && self.entries@[i2].0@ == k2 && (
                        #[trigger] self.entries@[i2].1@[j2])@ == x2;
                    assert(self.entries@[i2].0@ != k@);
                }
            }
        }
    }

    /// Applies one command: an add settles the pair present, a remove settles
    /// it absent, and nothing else moves.
    pub fn apply(&mut self, cmd: &CRDTCommand)
        requires
            old(self).wf(),
        ensures
            final(self).wf(),
            forall|k2: Seq<char>, x2: Seq<char>|
                final(self).mem_spec(k2, x2) == cmd_effect(cmd@, k2, x2, old(self).mem_spec(k2, x2)),
    {
        match cmd {
            CRDTCommand::SetAdd(k, x) => self.add_member(k, x),
            CRDTCommand::SetRemove(k, x) => self.remove_member(k, x),
        }
    }

    /// Applies a batch of commands, first command first.
    pub fn apply_all(&mut self, cmds: &Vec<CRDTCommand>)
        requires
            old(self).wf(),
        ensures
            final(self).wf(),
            forall|k2: Seq<char>, x2: Seq<char>|
                final(self).mem_spec(k2, x2) == seq_effect(
                    crate::model::cmds_view(cmds@),
                    k2,
                    x2,
                    old(self).mem_spec(k2, x2),
                ),
    {
        let mut i: usize = 0;
        proof {
            assert(crate::model::cmds_view(cmds@).skip(0) =~= crate::model::cmds_view(cmds@));
        }
        while i < cmds.len()
            invariant
                i <= cmds@.len(),
                self.wf(),
                forall|k2: Seq<char>, x2: Seq<char>|
                    seq_effect(
                        crate::model::cmds_view(cmds@),
                        k2,
                        x2,
                        old(self).mem_spec(k2, x2),
                    ) == seq_effect(
                        crate::model::cmds_view(cmds@).skip(i as int),
                        k2,
                        x2,
                        #[trigger] self.mem_spec(k2, x2),
                    ),
            decreases cmds@.len() - i,
        {
            let ghost prev = *self;
            self.apply(&cmds[i]);
            proof {
                let v = crate::model::cmds_view(cmds@);
                assert(v.skip(i as int)[0] == cmds@[i as int]@);
                assert(v.skip(i as int).skip(1) =~= v.skip(i + 1));
                assert forall|k2: Seq<char>, x2: Seq<char>|
                    seq_effect(v, k2, x2, old(self).mem_spec(k2, x2)) == seq_effect(
                        v.skip(i + 1),
                        k2,
                        x2,
                        #[trigger] self.mem_spec(k2, x2),
                    ) by {
                    assert(seq_effect(v, k2, x2, old(self).mem_spec(k2, x2)) == seq_effect(
                        v.skip(i as int),
                        k2,
                        x2,
                        prev.mem_spec(k2, x2),
                    ));
                    assert(self.mem_spec(k2, x2) == cmd_effect(
                        cmds@[i as int]@,
                        k2,
                        x2,
                        prev.mem_spec(k2, x2),
                    ));
                }
            }
            i = i + 1;
        }
        proof {
            let v = crate::model::cmds_view(cmds@);
            assert(v.skip(i as int) =~= Seq::<CmdSpec>::empty());
        }
    }
}

} // verus!
