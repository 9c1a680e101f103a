//! The chained lexical-scope table: a stack of frames, the innermost frame
//! last, each frame owning an ordered list of name bindings.
use vstd::prelude::*;
use crate::value::{UvlValue, ValueModel};

verus! {

/// The model of one binding: its mutability flag and its value.
pub struct BindingModel {
    pub is_mutable: bool,
    pub value: ValueModel,
}

/// The model of one frame entry: a name and its binding.
pub struct EntryModel {
    pub name: Seq<char>,
    pub binding: BindingModel,
}

/// A name's mutability flag plus its current value within a frame.
pub struct Binding {
    pub is_mutable: bool,
    pub value: UvlValue,
}

/// One declared name of a frame.
pub struct Entry {
    pub name: String,
    pub binding: Binding,
}

/// One lexical scope's binding table.
pub struct Frame {
    pub entries: Vec<Entry>,
}

/// The scope chain: a stack of frames, the root frame first and the current
/// (innermost) frame last.
pub struct Environment {
    pub frames: Vec<Frame>,
}

impl View for Binding {
    type V = BindingModel;

    open spec fn view(&self) -> BindingModel {
        BindingModel { is_mutable: self.is_mutable, value: self.value@ }
    }
}

impl View for Entry {
    type V = EntryModel;

    open spec fn view(&self) -> EntryModel {
        EntryModel { name: self.name@, binding: self.binding@ }
    }
}

impl View for Frame {
    type V = Seq<EntryModel>;

    open spec fn view(&self) -> Seq<EntryModel> {
        self.entries@.map_values(|e: Entry| e@)
    }
}

impl View for Environment {
    type V = Seq<Seq<EntryModel>>;

    open spec fn view(&self) -> Seq<Seq<EntryModel>> {
        self.frames@.map_values(|f: Frame| f@)
    }
}

/// The first binding for `name` in the frame, if any.
pub open spec fn spec_frame_lookup(f: Seq<EntryModel>, name: Seq<char>) -> Option<BindingModel>
    decreases f.len(),
{
    if f.len() == 0 {
        None
    } else if f[0].name == name {
        Some(f[0].binding)
    } else {
        spec_frame_lookup(f.drop_first(), name)
    }
}

/// Whether the frame binds `name`.
pub open spec fn spec_frame_contains(f: Seq<EntryModel>, name: Seq<char>) -> bool {
    spec_frame_lookup(f, name) is Some
}

/// The binding for `name` in the nearest frame that has one, searching the
/// current frame first and then each enclosing frame in turn.
pub open spec fn spec_env_lookup(env: Seq<Seq<EntryModel>>, name: Seq<char>) -> Option<
    BindingModel,
>
    decreases env.len(),
{
    if env.len() == 0 {
        None
    } else {
        match spec_frame_lookup(env.last(), name) {
            Some(b) => Some(b),
            None => spec_env_lookup(env.drop_last(), name),
        }
    }
}

/// The frame with the value of `name` replaced by `v`, its mutability flag
/// kept; frames that do not bind `name` are returned unchanged.
pub open spec fn spec_frame_assign(
    f: Seq<EntryModel>,
    name: Seq<char>,
    v: ValueModel,
) -> Seq<EntryModel>
    decreases f.len(),
{
    if f.len() == 0 {
        f
    } else if f[0].name == name {
        seq![
            EntryModel {
                name: f[0].name,
                binding: BindingModel { is_mutable: f[0].binding.is_mutable, value: v },
            },
        ] + f.drop_first()
    } else {
        seq![f[0]] + spec_frame_assign(f.drop_first(), name, v)
    }
}

/// The scope chain with the value of `name` replaced by `v` in the nearest
/// frame that binds it.
pub open spec fn spec_env_assign(
    env: Seq<Seq<EntryModel>>,
    name: Seq<char>,
    v: ValueModel,
) -> Seq<Seq<EntryModel>>
    decreases env.len(),
{
    if env.len() == 0 {
        env
    } else if spec_frame_contains(env.last(), name) {
        env.drop_last().push(spec_frame_assign(env.last(), name, v))
    } else {
        spec_env_assign(env.drop_last(), name, v).push(env.last())
    }
}

/// The frame with `name` bound to `v` with mutability `m`: the first entry
/// carrying `name` is replaced outright, or a fresh entry is appended.
pub open spec fn spec_frame_define(
    f: Seq<EntryModel>,
    name: Seq<char>,
    m: bool,
    v: ValueModel,
) -> Seq<EntryModel>
    decreases f.len(),
{
    if f.len() == 0 {
        seq![EntryModel { name, binding: BindingModel { is_mutable: m, value: v } }]
    } else if f[0].name == name {
        seq![EntryModel { name, binding: BindingModel { is_mutable: m, value: v } }]
            + f.drop_first()
    } else {
        seq![f[0]] + spec_frame_define(f.drop_first(), name, m, v)
    }
}

/// The scope chain with `name` bound in the current frame.
pub open spec fn spec_env_define(
    env: Seq<Seq<EntryModel>>,
    name: Seq<char>,
    m: bool,
    v: ValueModel,
) -> Seq<Seq<EntryModel>> {
    env.update(env.len() - 1, spec_frame_define(env.last(), name, m, v))
}

/// A frame is well formed when no name is bound twice in it.
pub open spec fn spec_frame_wf(f: Seq<EntryModel>) -> bool {
    forall|i: int, j: int|
        #![trigger f[i], f[j]]
        0 <= i < j < f.len() ==> f[i].name != f[j].name
}

/// A scope chain is well formed when it has a root frame and every frame is
/// well formed.
pub open spec fn spec_env_wf(env: Seq<Seq<EntryModel>>) -> bool {
    &&& env.len() >= 1
    &&& forall|i: int| 0 <= i < env.len() ==> spec_frame_wf(#[trigger] env[i])
}

/// A frame binds `name` exactly when some entry of it carries `name`.
pub proof fn lemma_frame_lookup_none_iff(f: Seq<EntryModel>, name: Seq<char>)
    ensures
        spec_frame_lookup(f, name) is None <==> forall|i: int|
            0 <= i < f.len() ==> (#[trigger] f[i]).name != name,
    decreases f.len(),
{
    if f.len() > 0 {
        lemma_frame_lookup_none_iff(f.drop_first(), name);
        assert(forall|i: int|
            1 <= i < f.len() ==> #[trigger] f[i] == f.drop_first()[i - 1]);
    }
}

/// The first entry carrying `name` decides what the frame lookup yields.
pub proof fn lemma_frame_lookup_at(f: Seq<EntryModel>, name: Seq<char>, j: int)
    requires
        0 <= j < f.len(),
        f[j].name == name,
        forall|i: int| 0 <= i < j ==> (#[trigger] f[i]).name != name,
    ensures
        spec_frame_lookup(f, name) == Some(f[j].binding),
    decreases f.len(),
{
    if j > 0 {
        lemma_frame_lookup_at(f.drop_first(), name, j - 1);
        assert(forall|i: int|
            1 <= i < f.len() ==> #[trigger] f[i] == f.drop_first()[i - 1]);
        assert(f.drop_first()[j - 1] == f[j]);
    }
}

/// Assigning within a scope chain rewrites exactly the nearest frame that
/// binds the name.
proof fn lemma_env_assign_at(
    env: Seq<Seq<EntryModel>>,
    name: Seq<char>,
    v: ValueModel,
    fi: int,
)
    requires
        0 <= fi < env.len(),
        spec_frame_contains(env[fi], name),
        forall|k: int| fi < k < env.len() ==> !spec_frame_contains(#[trigger] env[k], name),
    ensures
        spec_env_assign(env, name, v) =~= env.update(fi, spec_frame_assign(env[fi], name, v)),
    decreases env.len(),
{
    if fi == env.len() - 1 {
    } else {
        lemma_env_assign_at(env.drop_last(), name, v, fi);
    }
}

/// Assigning within a frame rewrites exactly the first entry that carries
/// the name.
proof fn lemma_frame_assign_at(f: Seq<EntryModel>, name: Seq<char>, v: ValueModel, j: int)
    requires
        0 <= j < f.len(),
        f[j].name == name,
        forall|i: int| 0 <= i < j ==> (#[trigger] f[i]).name != name,
    ensures
        spec_frame_assign(f, name, v) =~= f.update(
            j,
            EntryModel {
                name: f[j].name,
                binding: BindingModel { is_mutable: f[j].binding.is_mutable, value: v },
            },
        ),
    decreases f.len(),
{
    if j > 0 {
        assert(forall|i: int|
            1 <= i < f.len() ==> #[trigger] f[i] == f.drop_first()[i - 1]);
        lemma_frame_assign_at(f.drop_first(), name, v, j - 1);
    }
}

/// Law: shadowing never mutates the outer binding. A name declared in a
/// freshly opened child frame leaves every enclosing frame exactly as it
/// was once the child frame is discarded.
pub proof fn lemma_shadowing_preserves_outer(
    env: Seq<Seq<EntryModel>>,
    name: Seq<char>,
    m: bool,
    v: ValueModel,
)
    requires
        env.len() >= 1,
    ensures
        spec_env_define(env.push(Seq::empty()), name, m, v).drop_last() =~= env,
{
}

/// Defining a name no entry carries appends a fresh entry.
proof fn lemma_frame_define_absent(f: Seq<EntryModel>, name: Seq<char>, m: bool, v: ValueModel)
    requires
        forall|i: int| 0 <= i < f.len() ==> (#[trigger] f[i]).name != name,
    ensures
        spec_frame_define(f, name, m, v) =~= f.push(
            EntryModel { name, binding: BindingModel { is_mutable: m, value: v } },
        ),
    decreases f.len(),
{
    if f.len() > 0 {
        assert(forall|i: int|
            1 <= i < f.len() ==> #[trigger] f[i] == f.drop_first()[i - 1]);
        lemma_frame_define_absent(f.drop_first(), name, m, v);
    }
}

/// Defining a name rewrites exactly the first entry that carries it.
proof fn lemma_frame_define_at(f: Seq<EntryModel>, name: Seq<char>, m: bool, v: ValueModel, j: int)
    requires
        0 <= j < f.len(),
        f[j].name == name,
        forall|i: int| 0 <= i < j ==> (#[trigger] f[i]).name != name,
    ensures
        spec_frame_define(f, name, m, v) =~= f.update(
            j,
            EntryModel { name, binding: BindingModel { is_mutable: m, value: v } },
        ),
    decreases f.len(),
{
    if j > 0 {
        assert(forall|i: int|
            1 <= i < f.len() ==> #[trigger] f[i] == f.drop_first()[i - 1]);
        lemma_frame_define_at(f.drop_first(), name, m, v, j - 1);
    }
}

/// Assigning a name no frame binds leaves the scope chain unchanged.
proof fn lemma_env_assign_absent(env: Seq<Seq<EntryModel>>, name: Seq<char>, v: ValueModel)
    requires
        forall|k: int| 0 <= k < env.len() ==> !spec_frame_contains(#[trigger] env[k], name),
    ensures
        spec_env_assign(env, name, v) =~= env,
    decreases env.len(),
{
    if env.len() > 0 {
        lemma_env_assign_absent(env.drop_last(), name, v);
    }
}

impl Frame {
    /// The position of the first entry binding `name`, if any.
    fn find(&self, name: &String) -> (r: Option<usize>)
        ensures
            match r {
                Some(j) => {
                    &&& j < self@.len()
                    &&& self@[j as int].name == name@
                    &&& forall|i: int| 0 <= i < j ==> (#[trigger] self@[i]).name != name@
                    &&& spec_frame_lookup(self@, name@) == Some(self@[j as int].binding)
                },
                None => spec_frame_lookup(self@, name@) is None,
            },
    {
        let n = self.entries.len();
        let mut j: usize = 0;
        while j < n
            invariant
                n == self@.len(),
                j <= n,
                forall|i: int| 0 <= i < j ==> (#[trigger] self@[i]).name != name@,
            decreases n - j,
        {
            if self.entries[j].name.eq(name) {
                proof {
                    lemma_frame_lookup_at(self@, name@, j as int);
                }
                return Some(j);
            }
            j += 1;
        }
        proof {
            lemma_frame_lookup_none_iff(self@, name@);
        }
        None
    }
}

impl Environment {
    /// Whether this scope chain is well formed.
    pub open spec fn wf(&self) -> bool {
        spec_env_wf(self@)
    }

    /// A fresh scope chain holding a single empty root frame.
    pub fn new() -> (e: Environment)
        ensures
            e.wf(),
            e@ =~~= seq![Seq::<EntryModel>::empty()],
    {
        let mut frames: Vec<Frame> = Vec::new();
        frames.push(Frame { entries: Vec::new() });
        Environment { frames }
    }

    /// Opens a fresh, empty child frame; used on block entry.
    pub fn push_frame(&mut self)
        requires
            old(self).wf(),
        ensures
            final(self).wf(),
            final(self)@ =~~= old(self)@.push(Seq::<EntryModel>::empty()),
    {
        self.frames.push(Frame { entries: Vec::new() });
    }

    /// Discards the current frame, returning to its parent; used on block
    /// exit.
    pub fn pop_frame(&mut self)
        requires
            old(self).wf(),
            old(self)@.len() >= 2,
        ensures
            final(self).wf(),
            final(self)@ =~~= old(self)@.drop_last(),
    {
        let _ = self.frames.pop();
    }

    /// Whether `name` is bound in the current frame only, ancestors not
    /// searched; used to detect redeclaration.
    pub fn contains(&self, name: &String) -> (r: bool)
        requires
            self.wf(),
        ensures
            r == spec_frame_contains(self@.last(), name@),
    {
        let top = self.frames.len() - 1;
        let r = self.frames[top].find(name);
        r.is_some()
    }

    /// The binding for `name` in the nearest frame that has one.
    pub fn get(&self, name: &String) -> (r: Option<&Binding>)
        requires
            self.wf(),
        ensures
            match r {
                Some(b) => spec_env_lookup(self@, name@) == Some(b@),
                None => spec_env_lookup(self@, name@) is None,
            },
    {
        let mut fi = self.frames.len();
        proof {
            assert(self@.take(fi as int) =~= self@);
        }
        while fi > 0
            invariant
                self.wf(),
                fi <= self@.len(),
                spec_env_lookup(self@, name@) == spec_env_lookup(
                    self@.take(fi as int),
                    name@,
                ),
            decreases fi,
        {
            fi -= 1;
            let found = self.frames[fi].find(name);
            match found {
                Some(j) => {
                    proof {
                        assert(self@.take(fi as int + 1).last() == self@[fi as int]);
                    }
                    return Some(&self.frames[fi].entries[j].binding);
                },
                None => {
                    proof {
                        assert(self@.take(fi as int + 1).last() == self@[fi as int]);
                        assert(self@.take(fi as int + 1).drop_last() =~= self@.take(fi as int));
                    }
                },
            }
        }
        proof {
            assert(self@.take(0) =~= Seq::<Seq<EntryModel>>::empty());
        }
        None
    }

    /// Binds `name` in the current frame: a fresh entry for a fresh name, an
    /// outright overwrite where the frame already binds it (the evaluator
    /// rejects redeclaration before calling this, so the overwrite serves
    /// only the initial declaration flow).
    pub fn define(&mut self, name: &String, is_mutable: bool, value: UvlValue)
        requires
            old(self).wf(),
        ensures
            final(self).wf(),
            final(self)@ =~~= spec_env_define(old(self)@, name@, is_mutable, value@),
            final(self)@.len() == old(self)@.len(),
    {
        let top = self.frames.len() - 1;
        let ghost env0 = self@;
        let ghost e = EntryModel {
            name: name@,
            binding: BindingModel { is_mutable, value: value@ },
        };
        let found = self.frames[top].find(name);
        match found {
            Some(j) => {
                proof {
                    lemma_frame_define_at(env0.last(), name@, is_mutable, value@, j as int);
                }
                let fr = &mut self.frames[top];
                let en = &mut fr.entries[j];
                en.binding = Binding { is_mutable, value };
                proof {
                    assert(self@[top as int] =~= env0.last().update(j as int, e));
                    assert(self@ =~~= spec_env_define(env0, name@, is_mutable, value@));
                    assert forall|i: int| 0 <= i < self@.len() implies spec_frame_wf(
                        #[trigger] self@[i],
                    ) by {
                        assert(spec_frame_wf(env0[i]));
                        if i == top {
                            let nf = env0.last().update(j as int, e);
                            assert forall|a: int, b: int|
                                #![trigger nf[a], nf[b]]
                                0 <= a < b < nf.len() implies nf[a].name != nf[b].name by {
                                assert(env0.last()[j as int].name == name@);
                                assert(nf[a].name == env0.last()[a].name);
                                assert(nf[b].name == env0.last()[b].name);
                            }
                        }
                    }
                }
            },
            None => {
                proof {
                    lemma_frame_lookup_none_iff(env0.last(), name@);
                    lemma_frame_define_absent(env0.last(), name@, is_mutable, value@);
                }
                let fr = &mut self.frames[top];
                fr.entries.push(
                    Entry { name: name.clone(), binding: Binding { is_mutable, value } },
                );
                proof {
                    assert(self@ =~~= env0.update(top as int, env0.last().push(e)));
                    assert(self@ =~~= spec_env_define(env0, name@, is_mutable, value@));
                    assert forall|i: int| 0 <= i < self@.len() implies spec_frame_wf(
                        #[trigger] self@[i],
                    ) by {
                        assert(spec_frame_wf(env0[i]));
                        if i == top {
                            let nf = env0.last().push(e);
                            assert forall|a: int, b: int|
                                #![trigger nf[a], nf[b]]
                                0 <= a < b < nf.len() implies nf[a].name != nf[b].name by {
                                if b < nf.len() - 1 {
                                    assert(nf[a] == env0.last()[a] && nf[b] == env0.last()[b]);
                                } else {
                                    assert(nf[a] == env0.last()[a]);
                                }
                            }
                        }
                    }
                }
            },
        }
    }

    /// Replaces the value of `name` in the nearest frame that binds it,
    /// keeping its mutability flag; a name no frame binds leaves the chain
    /// unchanged (the evaluator confirms the binding exists before calling
    /// this).
    pub fn assign(&mut self, name: &String, value: UvlValue)
        requires
            old(self).wf(),
        ensures
            final(self).wf(),
            final(self)@ =~~= spec_env_assign(old(self)@, name@, value@),
            final(self)@.len() == old(self)@.len(),
    {
        let ghost env0 = self@;
        let mut fi = self.frames.len();
        while fi > 0
            invariant
                self.wf(),
                self@ == env0,
                env0 == old(self)@,
                fi <= self@.len(),
                forall|k: int|
                    fi <= k < env0.len() ==> !spec_frame_contains(#[trigger] env0[k], name@),
            decreases fi,
        {
            fi -= 1;
            let found = self.frames[fi].find(name);
            match found {
                Some(j) => {
                    let ghost oldf = env0[fi as int];
                    let ghost ne = EntryModel {
                        name: oldf[j as int].name,
                        binding: BindingModel {
                            is_mutable: oldf[j as int].binding.is_mutable,
                            value: value@,
                        },
                    };
                    proof {
                        lemma_env_assign_at(env0, name@, value@, fi as int);
                        lemma_frame_assign_at(oldf, name@, value@, j as int);
                    }
                    let fr = &mut self.frames[fi];
                    let en = &mut fr.entries[j];
                    en.binding = Binding { is_mutable: en.binding.is_mutable, value };
                    proof {
                        assert(self@ =~~= env0.update(fi as int, oldf.update(j as int, ne)));
                        assert(self@ =~~= spec_env_assign(env0, name@, value@));
                        assert forall|i: int| 0 <= i < self@.len() implies spec_frame_wf(
                            #[trigger] self@[i],
                        ) by {
                            assert(spec_frame_wf(env0[i]));
                            if i == fi {
                                let nf = oldf.update(j as int, ne);
                                assert forall|a: int, b: int|
                                    #![trigger nf[a], nf[b]]
                                    0 <= a < b < nf.len() implies nf[a].name != nf[b].name by {
                                    assert(nf[a].name == oldf[a].name);
                                    assert(nf[b].name == oldf[b].name);
                                }
                            }
                        }
                    }
                    return ;
                },
                None => {},
            }
        }
        proof {
            lemma_env_assign_absent(env0, name@, value@);
        }
    }
}

} // verus!
