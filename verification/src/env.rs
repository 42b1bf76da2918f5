//! The environment: a store of scope frames, each a list of bindings with
//! an optional parent frame. Frames are addressed by index into the store;
//! a child always points at an older frame, so parent chains never cycle.
//! Closures capture a frame by index, which keeps the frame alive for as
//! long as the store lives.

use vstd::prelude::*;
use vstd::string::StringExecFns;
use crate::ast::Token;
use crate::value::{ErrV, NativeFn, RuntimeError, Val, Value, val_wf, value_clone};
use crate::text::{undef_text, undefined_variable_message};

verus! {

/// One lexical scope: its bindings, newest last, and its parent frame.
pub struct Frame {
    pub parent: Option<usize>,
    pub binds: Vec<(String, Value)>,
}

/// The mathematical model of a frame.
pub struct FrameV {
    pub parent: Option<int>,
    pub binds: Seq<(Seq<char>, Val)>,
}

pub open spec fn binds_v(binds: Seq<(String, Value)>) -> Seq<(Seq<char>, Val)> {
    binds.map_values(|p: (String, Value)| (p.0@, p.1@))
}

impl View for Frame {
    type V = FrameV;

    open spec fn view(&self) -> FrameV {
        FrameV {
            parent: match self.parent {
                Option::Some(p) => Option::Some(p as int),
                Option::None => Option::None,
            },
            binds: binds_v(self.binds@),
        }
    }
}

/// The binding of `name` in a frame's binding list: the newest entry under
/// that name, if there is one.
pub open spec fn assoc_get(binds: Seq<(Seq<char>, Val)>, name: Seq<char>) -> Option<Val>
    decreases binds.len(),
{
    if binds.len() == 0 {
        Option::None
    } else if binds.last().0 == name {
        Option::Some(binds.last().1)
    } else {
        assoc_get(binds.drop_last(), name)
    }
}

/// A binding that `assoc_get` returns is one of the list's entries.
pub proof fn lemma_assoc_get_in(binds: Seq<(Seq<char>, Val)>, name: Seq<char>)
    requires
        assoc_get(binds, name) is Some,
    ensures
        exists|j: int|
            0 <= j < binds.len() && #[trigger] binds[j].0 == name && binds[j].1 == assoc_get(
                binds,
                name,
            )->Some_0,
    decreases binds.len(),
{
    if binds.last().0 == name {
        assert(binds[binds.len() - 1].0 == name);
    } else {
        lemma_assoc_get_in(binds.drop_last(), name);
        let j = choose|j: int|
            0 <= j < binds.drop_last().len() && #[trigger] binds.drop_last()[j].0 == name
                && binds.drop_last()[j].1 == assoc_get(binds.drop_last(), name)->Some_0;
        assert(binds[j].0 == name);
    }
}

/// Frame `i` of an `n`-frame store is well formed: its parent is an older
/// frame and every value it binds is well formed for the store.
pub open spec fn frame_wf(f: FrameV, i: int, n: int) -> bool {
    &&& match f.parent {
        Option::Some(p) => 0 <= p < i,
        Option::None => true,
    }
    &&& forall|j: int| 0 <= j < f.binds.len() ==> val_wf(#[trigger] f.binds[j].1, n)
}

/// The store is well formed: it has a root frame and every frame is.
pub open spec fn env_wf(frames: Seq<FrameV>) -> bool {
    &&& frames.len() >= 1
    &&& forall|i: int| 0 <= i < frames.len() ==> frame_wf(#[trigger] frames[i], i, frames.len() as int)
}

/// Name lookup along the parent chain, starting at frame `i`.
pub open spec fn chain_get(frames: Seq<FrameV>, i: int, name: Seq<char>) -> Option<Val>
    decreases i,
{
    if 0 <= i < frames.len() {
        match assoc_get(frames[i].binds, name) {
            Option::Some(v) => Option::Some(v),
            Option::None => match frames[i].parent {
                Option::Some(p) => if 0 <= p < i {
                    chain_get(frames, p, name)
                } else {
                    Option::None
                },
                Option::None => Option::None,
            },
        }
    } else {
        Option::None
    }
}

/// Assignment along the parent chain: the store with the first frame that
/// already binds `name` given the new binding, or `None` when no frame
/// binds it. Assignment never creates a binding in a frame that lacks one.
pub open spec fn chain_assign(frames: Seq<FrameV>, i: int, name: Seq<char>, v: Val) -> Option<
    Seq<FrameV>,
>
    decreases i,
{
    if 0 <= i < frames.len() {
        if assoc_get(frames[i].binds, name) is Some {
            Option::Some(
                frames.update(
                    i,
                    FrameV { parent: frames[i].parent, binds: frames[i].binds.push((name, v)) },
                ),
            )
        } else {
            match frames[i].parent {
                Option::Some(p) => if 0 <= p < i {
                    chain_assign(frames, p, name, v)
                } else {
                    Option::None
                },
                Option::None => Option::None,
            }
        }
    } else {
        Option::None
    }
}

/// The frame exactly `d` parent links above frame `i`, if the chain is
/// that long.
pub open spec fn ancestor(frames: Seq<FrameV>, i: int, d: nat) -> Option<int>
    decreases d,
{
    if !(0 <= i < frames.len()) {
        Option::None
    } else if d == 0 {
        Option::Some(i)
    } else {
        match frames[i].parent {
            Option::Some(p) => ancestor(frames, p, (d - 1) as nat),
            Option::None => Option::None,
        }
    }
}

/// Lookup through a resolved depth: walk exactly `d` links, then look in
/// that frame alone.
pub open spec fn get_at_spec(frames: Seq<FrameV>, i: int, d: nat, name: Seq<char>) -> Option<Val> {
    match ancestor(frames, i, d) {
        Option::Some(fi) => assoc_get(frames[fi].binds, name),
        Option::None => Option::None,
    }
}

/// Assignment through a resolved depth: walk exactly `d` links; the target
/// frame must already bind the name.
pub open spec fn assign_at_spec(frames: Seq<FrameV>, i: int, d: nat, name: Seq<char>, v: Val) -> Option<
    Seq<FrameV>,
> {
    match ancestor(frames, i, d) {
        Option::Some(fi) => if assoc_get(frames[fi].binds, name) is Some {
            Option::Some(
                frames.update(
                    fi,
                    FrameV { parent: frames[fi].parent, binds: frames[fi].binds.push((name, v)) },
                ),
            )
        } else {
            Option::None
        },
        Option::None => Option::None,
    }
}

/// The scan of one frame's binding list, newest entry first.
fn frame_lookup(binds: &Vec<(String, Value)>, name: &String) -> (r: Option<Value>)
    ensures
        match r {
            Option::Some(v) => assoc_get(binds_v(binds@), name@) == Option::Some(v@),
            Option::None => assoc_get(binds_v(binds@), name@) is None,
        },
{
    let ghost bv = binds_v(binds@);
    let mut i: usize = binds.len();
    proof {
        assert(bv.take(binds@.len() as int) =~= bv);
    }
    while i > 0
        invariant
            i <= binds.len(),
            bv == binds_v(binds@),
            assoc_get(bv, name@) == assoc_get(bv.take(i as int), name@),
        decreases i,
    {
        i = i - 1;
        proof {
            assert(bv[i as int] == (binds@[i as int].0@, binds@[i as int].1@));
            assert(bv.take(i as int + 1).last() == bv[i as int]);
        }
        if binds[i].0 == *name {
            return Some(value_clone(&binds[i].1));
        }
        proof {
            assert(bv.take(i as int + 1).drop_last() =~= bv.take(i as int));
        }
    }
    proof {
        assert(bv.take(0) =~= Seq::<(Seq<char>, Val)>::empty());
    }
    None
}

/// The store of frames. Frame 0 is the global frame.
pub struct Environment {
    pub frames: Vec<Frame>,
}

impl View for Environment {
    type V = Seq<FrameV>;

    open spec fn view(&self) -> Seq<FrameV> {
        self.frames@.map_values(|f: Frame| f@)
    }
}

impl Environment {
    /// A store holding only the empty global frame.
    pub fn new() -> (r: Self)
        ensures
            r@.len() == 1,
            r@[0].parent is None,
            r@[0].binds == Seq::<(Seq<char>, Val)>::empty(),
            env_wf(r@),
    {
        let frames = vec![Frame { parent: None, binds: Vec::new() }];
        let r = Environment { frames };
        proof {
            assert(r@[0].binds =~= Seq::<(Seq<char>, Val)>::empty());
        }
        r
    }

    /// Insert a binding into the given frame, shadowing any previous
    /// binding of the same name there.
    pub fn define(&mut self, frame: usize, name: String, value: Value)
        requires
            env_wf(old(self)@),
            frame < old(self)@.len(),
            val_wf(value@, old(self)@.len() as int),
        ensures
            final(self)@ == old(self)@.update(
                frame as int,
                FrameV {
                    parent: old(self)@[frame as int].parent,
                    binds: old(self)@[frame as int].binds.push((name@, value@)),
                },
            ),
            env_wf(final(self)@),
    {
        self.frames[frame].binds.push((name, value));
        proof {
            let ghost target = FrameV {
                parent: old(self)@[frame as int].parent,
                binds: old(self)@[frame as int].binds.push((name@, value@)),
            };
            assert(binds_v(old(self).frames@[frame as int].binds@.push((name, value)))
                =~= binds_v(old(self).frames@[frame as int].binds@).push((name@, value@)));
            assert(self@ =~= old(self)@.update(frame as int, target));
            assert forall|i: int| 0 <= i < self@.len() implies frame_wf(
                #[trigger] self@[i],
                i,
                self@.len() as int,
            ) by {
                assert(frame_wf(old(self)@[i], i, old(self)@.len() as int));
                if i == frame {
                    assert forall|j: int| 0 <= j < self@[i].binds.len() implies val_wf(
                        #[trigger] self@[i].binds[j].1,
                        self@.len() as int,
                    ) by {
                        if j < old(self)@[i].binds.len() {
                            assert(val_wf(old(self)@[i].binds[j].1, old(self)@.len() as int));
                        }
                    }
                }
            }
        }
    }

    /// Look a name up in the given frame, then along its parent chain; on a
    /// global miss, fail with the name error at the token's line.
    pub fn get(&self, frame: usize, name_token: &Token) -> (r: Result<Value, RuntimeError>)
        requires
            env_wf(self@),
            frame < self@.len(),
        ensures
            match r {
                Result::Ok(v) => {
                    &&& chain_get(self@, frame as int, name_token.lexeme@) == Option::Some(v@)
                    &&& val_wf(v@, self@.len() as int)
                },
                Result::Err(e) => {
                    &&& chain_get(self@, frame as int, name_token.lexeme@) is None
                    &&& e@ == (ErrV::Fail {
                        msg: undef_text(name_token.lexeme@),
                        line: name_token.line,
                    })
                },
            },
    {
        let mut cur = frame;
        loop
            invariant
                env_wf(self@),
                cur < self@.len(),
                chain_get(self@, frame as int, name_token.lexeme@) == chain_get(
                    self@,
                    cur as int,
                    name_token.lexeme@,
                ),
            decreases cur,
        {
            match frame_lookup(&self.frames[cur].binds, &name_token.lexeme) {
                Some(v) => {
                    proof {
                        lemma_assoc_get_in(self@[cur as int].binds, name_token.lexeme@);
                    }
                    return Ok(v);
                },
                None => {
                    match self.frames[cur].parent {
                        Some(p) => {
                            proof {
                                assert(frame_wf(self@[cur as int], cur as int, self@.len() as int));
                            }
                            cur = p;
                        },
                        None => {
                            return Err(
                                RuntimeError::new(
                                    undefined_variable_message(&name_token.lexeme),
                                    name_token.line,
                                ),
                            );
                        },
                    }
                },
            }
        }
    }

    /// Assign to the first frame along the chain that already binds the
    /// name; fail with the name error when none does. Assignment never
    /// creates a new binding.
    pub fn assign(&mut self, frame: usize, name_token: &Token, value: Value) -> (r: Result<
        (),
        RuntimeError,
    >)
        requires
            env_wf(old(self)@),
            frame < old(self)@.len(),
            val_wf(value@, old(self)@.len() as int),
        ensures
            env_wf(final(self)@),
            final(self)@.len() == old(self)@.len(),
            match r {
                Result::Ok(_) => chain_assign(old(self)@, frame as int, name_token.lexeme@, value@)
                    == Option::Some(final(self)@),
                Result::Err(e) => {
                    &&& chain_assign(old(self)@, frame as int, name_token.lexeme@, value@) is None
                    &&& final(self)@ == old(self)@
                    &&& e@ == (ErrV::Fail {
                        msg: undef_text(name_token.lexeme@),
                        line: name_token.line,
                    })
                },
            },
    {
        let mut cur = frame;
        let ghost vv0 = value@;
        loop
            invariant
                env_wf(self@),
                self@ == old(self)@,
                cur < self@.len(),
                value@ == vv0,
                val_wf(vv0, old(self)@.len() as int),
                chain_assign(old(self)@, frame as int, name_token.lexeme@, vv0) == chain_assign(
                    old(self)@,
                    cur as int,
                    name_token.lexeme@,
                    vv0,
                ),
            decreases cur,
        {
            match frame_lookup(&self.frames[cur].binds, &name_token.lexeme) {
                Some(_) => {
                    let name = name_token.lexeme.clone();
                    let ghost pre = self@;
                    let ghost vv = value@;
                    proof {
                        assert(val_wf(vv, pre.len() as int));
                    }
                    self.frames[cur].binds.push((name, value));
                    proof {
                        let ghost target = FrameV {
                            parent: pre[cur as int].parent,
                            binds: pre[cur as int].binds.push((name_token.lexeme@, vv)),
                        };
                        assert(self@[cur as int].binds =~~= target.binds);
                        assert(self@ =~~= pre.update(cur as int, target));
                        assert forall|i: int| 0 <= i < self@.len() implies frame_wf(
                            #[trigger] self@[i],
                            i,
                            self@.len() as int,
                        ) by {
                            assert(frame_wf(pre[i], i, pre.len() as int));
                            if i == cur {
                                assert forall|j: int| 0 <= j < self@[i].binds.len() implies val_wf(
                                    #[trigger] self@[i].binds[j].1,
                                    self@.len() as int,
                                ) by {
                                    if j < pre[i].binds.len() {
                                        assert(val_wf(pre[i].binds[j].1, pre.len() as int));
                                    } else {
                                        assert(self@[i].binds[j].1 == vv);
                                    }
                                }
                            }
                        }
                    }
                    return Ok(());
                },
                None => {
                    match self.frames[cur].parent {
                        Some(p) => {
                            proof {
                                assert(frame_wf(self@[cur as int], cur as int, self@.len() as int));
                            }
                            cur = p;
                        },
                        None => {
                            return Err(
                                RuntimeError::new(
                                    undefined_variable_message(&name_token.lexeme),
                                    name_token.line,
                                ),
                            );
                        },
                    }
                },
            }
        }
    }

    /// A fresh frame whose parent is the given one; its index is returned.
    pub fn new_with_enclosing(&mut self, parent: usize) -> (r: usize)
        requires
            env_wf(old(self)@),
            parent < old(self)@.len(),
        ensures
            r == old(self)@.len(),
            final(self)@ == old(self)@.push(
                FrameV {
                    parent: Option::Some(parent as int),
                    binds: Seq::<(Seq<char>, Val)>::empty(),
                },
            ),
            env_wf(final(self)@),
    {
        let r = self.frames.len();
        self.frames.push(Frame { parent: Some(parent), binds: Vec::new() });
        proof {
            let ghost nf = FrameV {
                parent: Option::Some(parent as int),
                binds: Seq::<(Seq<char>, Val)>::empty(),
            };
            assert(binds_v(Seq::<(String, Value)>::empty()) =~= Seq::<(Seq<char>, Val)>::empty());
            assert(self@ =~= old(self)@.push(nf));
            assert forall|i: int| 0 <= i < self@.len() implies frame_wf(
                #[trigger] self@[i],
                i,
                self@.len() as int,
            ) by {
                if i < old(self)@.len() {
                    assert(frame_wf(old(self)@[i], i, old(self)@.len() as int));
                }
            }
        }
        r
    }

    /// Pre-populate the global frame with the native bindings: `clock`.
    pub fn define_natives(&mut self)
        requires
            env_wf(old(self)@),
        ensures
            final(self)@ == old(self)@.update(
                0,
                FrameV {
                    parent: old(self)@[0].parent,
                    binds: old(self)@[0].binds.push(("clock"@, Val::Native(NativeFn::Clock))),
                },
            ),
            env_wf(final(self)@),
    {
        let name = <String as StringExecFns>::from_str("clock");
        self.define(0, name, Value::NativeFunction(NativeFn::Clock));
    }

    /// Lookup for a resolved local: walk exactly `depth` parent links, then
    /// look in that frame alone. The resolver guarantees the name is there;
    /// a miss still reports the name error rather than failing.
    pub fn get_at(&self, frame: usize, depth: usize, name_token: &Token) -> (r: Result<
        Value,
        RuntimeError,
    >)
        requires
            env_wf(self@),
            frame < self@.len(),
        ensures
            match r {
                Result::Ok(v) => {
                    &&& get_at_spec(self@, frame as int, depth as nat, name_token.lexeme@)
                        == Option::Some(v@)
                    &&& val_wf(v@, self@.len() as int)
                },
                Result::Err(e) => {
                    &&& get_at_spec(self@, frame as int, depth as nat, name_token.lexeme@) is None
                    &&& e@ == (ErrV::Fail {
                        msg: undef_text(name_token.lexeme@),
                        line: name_token.line,
                    })
                },
            },
    {
        let mut cur = frame;
        let mut k = depth;
        loop
            invariant
                env_wf(self@),
                cur < self@.len(),
                ancestor(self@, frame as int, depth as nat) == ancestor(self@, cur as int, k as nat),
            decreases k,
        {
            if k == 0 {
                match frame_lookup(&self.frames[cur].binds, &name_token.lexeme) {
                    Some(v) => {
                        proof {
                            lemma_assoc_get_in(self@[cur as int].binds, name_token.lexeme@);
                        }
                        return Ok(v);
                    },
                    None => {
                        return Err(
                            RuntimeError::new(
                                undefined_variable_message(&name_token.lexeme),
                                name_token.line,
                            ),
                        );
                    },
                }
            } else {
                match self.frames[cur].parent {
                    Some(p) => {
                        proof {
                            assert(frame_wf(self@[cur as int], cur as int, self@.len() as int));
                        }
                        cur = p;
                        k = k - 1;
                    },
                    None => {
                        return Err(
                            RuntimeError::new(
                                undefined_variable_message(&name_token.lexeme),
                                name_token.line,
                            ),
                        );
                    },
                }
            }
        }
    }

    /// Assignment for a resolved local: walk exactly `depth` parent links
    /// and update the binding there. The target frame must already bind the
    /// name; a miss reports the name error.
    pub fn assign_at(&mut self, frame: usize, depth: usize, name_token: &Token, value: Value) -> (r:
        Result<(), RuntimeError>)
        requires
            env_wf(old(self)@),
            frame < old(self)@.len(),
            val_wf(value@, old(self)@.len() as int),
        ensures
            env_wf(final(self)@),
            final(self)@.len() == old(self)@.len(),
            match r {
                Result::Ok(_) => assign_at_spec(
                    old(self)@,
                    frame as int,
                    depth as nat,
                    name_token.lexeme@,
                    value@,
                ) == Option::Some(final(self)@),
                Result::Err(e) => {
                    &&& assign_at_spec(
                        old(self)@,
                        frame as int,
                        depth as nat,
                        name_token.lexeme@,
                        value@,
                    ) is None
                    &&& final(self)@ == old(self)@
                    &&& e@ == (ErrV::Fail {
                        msg: undef_text(name_token.lexeme@),
                        line: name_token.line,
                    })
                },
            },
    {
        let mut cur = frame;
        let mut k = depth;
        let ghost vv0 = value@;
        loop
            invariant
                env_wf(self@),
                self@ == old(self)@,
                cur < self@.len(),
                value@ == vv0,
                val_wf(vv0, old(self)@.len() as int),
                ancestor(self@, frame as int, depth as nat) == ancestor(self@, cur as int, k as nat),
            decreases k,
        {
            if k == 0 {
                match frame_lookup(&self.frames[cur].binds, &name_token.lexeme) {
                    Some(_) => {
                        let name = name_token.lexeme.clone();
                        let ghost pre = self@;
                        let ghost vv = value@;
                        proof {
                            assert(val_wf(vv, pre.len() as int));
                        }
                        self.frames[cur].binds.push((name, value));
                        proof {
                            let ghost target = FrameV {
                                parent: pre[cur as int].parent,
                                binds: pre[cur as int].binds.push((name_token.lexeme@, vv)),
                            };
                            assert(self@[cur as int].binds =~~= target.binds);
                            assert(self@ =~~= pre.update(cur as int, target));
                            assert forall|i: int| 0 <= i < self@.len() implies frame_wf(
                                #[trigger] self@[i],
                                i,
                                self@.len() as int,
                            ) by {
                                assert(frame_wf(pre[i], i, pre.len() as int));
                                if i == cur {
                                    assert forall|j: int|
                                        0 <= j < self@[i].binds.len() implies val_wf(
                                        #[trigger] self@[i].binds[j].1,
                                        self@.len() as int,
                                    ) by {
                                        if j < pre[i].binds.len() {
                                            assert(val_wf(pre[i].binds[j].1, pre.len() as int));
                                        } else {
                                            assert(self@[i].binds[j].1 == vv);
                                        }
                                    }
                                }
                            }
                        }
                        return Ok(());
                    },
                    None => {
                        return Err(
                            RuntimeError::new(
                                undefined_variable_message(&name_token.lexeme),
                                name_token.line,
                            ),
                        );
                    },
                }
            } else {
                match self.frames[cur].parent {
                    Some(p) => {
                        proof {
                            assert(frame_wf(self@[cur as int], cur as int, self@.len() as int));
                        }
                        cur = p;
                        k = k - 1;
                    },
                    None => {
                        return Err(
                            RuntimeError::new(
                                undefined_variable_message(&name_token.lexeme),
                                name_token.line,
                            ),
                        );
                    },
                }
            }
        }
    }
}

} // verus!
