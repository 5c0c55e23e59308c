use vstd::prelude::*;

use crate::instruction::{
    copy_function, copy_object, copy_value, refers_object, Instruction, StackValue,
};
use crate::model::{
    function_m, instrs_m, names_m, object_m, object_refs, value_m, FunctionM, ObjectM, ValueM,
};

verus! {

/// A declared function: its name, parameter names and compiled body.
#[derive(Debug, PartialEq)]
pub struct Function {
    pub name: String,
    pub params: Vec<String>,
    pub block: Vec<Instruction>,
}

/// What a name is bound to. A function remembers the frame it was declared
/// in, which is where a call to it opens its own frame. A variable declared
/// without a value is bound to `Uninitialized` until it is assigned.
#[derive(Debug, PartialEq)]
pub enum Object {
    Function { scope: usize, func: Function },
    Value { value: StackValue },
    Uninitialized,
}

/// One frame of bindings, with the frame it is nested in.
#[derive(Debug)]
pub struct Frame {
    store: Vec<(String, Object)>,
    outer: Option<usize>,
    func_id: String,
}

/// All frames of a session, and the frame that code currently runs in.
///
/// Frames live in one arena and refer to their outer frame by index, so an
/// assignment through any path is seen by all. The frames a call opens are
/// dropped when it returns, unless a closure that survives the call still
/// refers to them.
#[derive(Debug)]
pub struct Scope {
    frames: Vec<Frame>,
    current: usize,
}

/// The model of a frame: its bindings in order of first declaration.
pub ghost struct FrameM {
    pub store: Seq<(Seq<char>, ObjectM)>,
    pub outer: Option<nat>,
}

/// The model of a scope: all frames, and the index of the current one.
pub ghost struct ScopeM {
    pub frames: Seq<FrameM>,
    pub current: nat,
}

/// Where `name` is bound in a frame's bindings.
pub open spec fn key_index(store: Seq<(Seq<char>, ObjectM)>, name: Seq<char>) -> Option<nat>
    decreases store.len(),
{
    if store.len() == 0 {
        None
    } else if store[store.len() - 1].0 == name {
        Some((store.len() - 1) as nat)
    } else {
        key_index(store.subrange(0, store.len() - 1), name)
    }
}

/// A frame's bindings after `name` is bound to `obj` there: an existing
/// binding is overwritten in place, else one is added.
pub open spec fn bind_m(store: Seq<(Seq<char>, ObjectM)>, name: Seq<char>, obj: ObjectM) -> Seq<
    (Seq<char>, ObjectM),
> {
    match key_index(store, name) {
        Some(k) => store.update(k as int, (name, obj)),
        None => store.push((name, obj)),
    }
}

/// The nearest binding of `name`, searching frame `f` and then its outer frames.
pub open spec fn lookup_from(frames: Seq<FrameM>, f: nat, name: Seq<char>) -> Option<ObjectM>
    decreases f,
{
    if f >= frames.len() {
        None
    } else {
        match key_index(frames[f as int].store, name) {
            Some(k) => Some(frames[f as int].store[k as int].1),
            None => match frames[f as int].outer {
                Some(p) => if p < f {
                    lookup_from(frames, p, name)
                } else {
                    None
                },
                None => None,
            },
        }
    }
}

/// The frames after the nearest binding of `name` from frame `f` is set to
/// the value `v`; `None` where no frame on the way binds `name`.
pub open spec fn assign_from(frames: Seq<FrameM>, f: nat, name: Seq<char>, v: ValueM) -> Option<
    Seq<FrameM>,
>
    decreases f,
{
    if f >= frames.len() {
        None
    } else {
        match key_index(frames[f as int].store, name) {
            Some(k) => Some(
                frames.update(
                    f as int,
                    FrameM {
                        store: frames[f as int].store.update(
                            k as int,
                            (name, ObjectM::Value { value: v }),
                        ),
                        ..frames[f as int]
                    },
                ),
            ),
            None => match frames[f as int].outer {
                Some(p) => if p < f {
                    assign_from(frames, p, name, v)
                } else {
                    None
                },
                None => None,
            },
        }
    }
}

/// Whether a frame's bindings refer to frame `base` or a later one.
pub open spec fn store_refs(s: Seq<(Seq<char>, ObjectM)>, base: nat) -> bool
    decreases s.len(),
{
    if s.len() == 0 {
        false
    } else {
        store_refs(s.subrange(0, s.len() - 1), base) || object_refs(s[s.len() - 1].1, base)
    }
}

/// Whether any of the first `n` frames refers to frame `base` or a later one.
pub open spec fn frames_refs(frames: Seq<FrameM>, n: nat, base: nat) -> bool
    decreases n,
{
    if n == 0 || n > frames.len() {
        false
    } else {
        frames_refs(frames, (n - 1) as nat, base) || store_refs(frames[n - 1].store, base)
    }
}

impl ScopeM {
    /// A fresh session: one empty root frame.
    pub open spec fn root() -> ScopeM {
        ScopeM { frames: seq![FrameM { store: Seq::empty(), outer: None }], current: 0 }
    }

    /// Every outer link points to an earlier frame, and no frame binds a name twice.
    pub open spec fn wf(self) -> bool {
        &&& self.current < self.frames.len()
        &&& forall|f: int|
            0 <= f < self.frames.len() ==> match #[trigger] self.frames[f].outer {
                Some(p) => p < f,
                None => true,
            }
        &&& forall|f: int, a: int, b: int|
            0 <= f < self.frames.len() && 0 <= a < b < self.frames[f].store.len() ==> (
            #[trigger] self.frames[f].store[a]).0 != (#[trigger] self.frames[f].store[b]).0
    }

    /// The current frame's own bindings.
    pub open spec fn here(self) -> Seq<(Seq<char>, ObjectM)> {
        self.frames[self.current as int].store
    }

    /// The nearest binding of `name` as seen from the current frame.
    pub open spec fn lookup(self, name: Seq<char>) -> Option<ObjectM> {
        lookup_from(self.frames, self.current, name)
    }

    /// Binds `name` in the current frame only.
    pub open spec fn declare(self, name: Seq<char>, obj: ObjectM) -> ScopeM {
        ScopeM {
            frames: self.frames.update(
                self.current as int,
                FrameM { store: bind_m(self.here(), name, obj), ..self.frames[self.current as int] },
            ),
            current: self.current,
        }
    }

    /// Sets the nearest binding of `name` to `v`; `None` where there is none.
    pub open spec fn assign(self, name: Seq<char>, v: ValueM) -> Option<ScopeM> {
        match assign_from(self.frames, self.current, name, v) {
            Some(frames) => Some(ScopeM { frames, current: self.current }),
            None => None,
        }
    }

    /// Opens a new empty frame nested in frame `outer` and makes it current.
    pub open spec fn enter(self, outer: nat) -> ScopeM {
        ScopeM {
            frames: self.frames.push(FrameM { store: Seq::empty(), outer: Some(outer) }),
            current: self.frames.len(),
        }
    }
}

spec fn store_m(s: Seq<(String, Object)>) -> Seq<(Seq<char>, ObjectM)> {
    s.map_values(|b: (String, Object)| (b.0@, object_m(b.1)))
}

spec fn frame_m(f: Frame) -> FrameM {
    FrameM {
        store: store_m(f.store@),
        outer: match f.outer {
            Some(p) => Some(p as nat),
            None => None,
        },
    }
}

impl View for Scope {
    type V = ScopeM;

    closed spec fn view(&self) -> ScopeM {
        ScopeM { frames: self.frames@.map_values(|f: Frame| frame_m(f)), current: self.current as nat }
    }
}

/// What `key_index` finds: the position of the binding, or that there is none.
pub proof fn lemma_key_index(store: Seq<(Seq<char>, ObjectM)>, name: Seq<char>)
    ensures
        match key_index(store, name) {
            Some(k) => k < store.len() && store[k as int].0 == name,
            None => forall|j: int| 0 <= j < store.len() ==> (#[trigger] store[j]).0 != name,
        },
    decreases store.len(),
{
    if store.len() > 0 {
        let rest = store.subrange(0, store.len() - 1);
        lemma_key_index(rest, name);
        if store[store.len() - 1].0 != name {
            assert forall|j: int| 0 <= j < store.len() - 1 implies (#[trigger] store[j]).0 == rest[j].0 by {}
        }
    }
}

/// Declaring keeps a scope well formed.
pub proof fn lemma_declare_wf(m: ScopeM, name: Seq<char>, obj: ObjectM)
    requires
        m.wf(),
    ensures
        m.declare(name, obj).wf(),
        m.declare(name, obj).frames.len() == m.frames.len(),
        m.declare(name, obj).current == m.current,
{
    lemma_key_index(m.here(), name);
    let n = m.declare(name, obj);
    assert forall|f: int, a: int, b: int|
        0 <= f < n.frames.len() && 0 <= a < b < n.frames[f].store.len() implies (
        #[trigger] n.frames[f].store[a]).0 != (#[trigger] n.frames[f].store[b]).0 by {
        if f != m.current {
            assert(n.frames[f] == m.frames[f]);
        }
    }
    assert forall|f: int| 0 <= f < n.frames.len() implies match #[trigger] n.frames[f].outer {
        Some(p) => p < f,
        None => true,
    } by {
        assert(n.frames[f].outer == m.frames[f].outer);
    }
}

/// Assigning keeps a scope well formed, and keeps its frames and current frame.
pub proof fn lemma_assign_wf(frames: Seq<FrameM>, f: nat, cur: nat, name: Seq<char>, v: ValueM)
    requires
        (ScopeM { frames, current: cur }).wf(),
        f < frames.len(),
    ensures
        assign_from(frames, f, name, v) matches Some(n) ==> (ScopeM { frames: n, current: cur }).wf()
            && n.len() == frames.len(),
    decreases f,
{
    lemma_key_index(frames[f as int].store, name);
    match key_index(frames[f as int].store, name) {
        Some(k) => {
            let n = assign_from(frames, f, name, v).unwrap();
            assert forall|g: int, a: int, b: int|
                0 <= g < n.len() && 0 <= a < b < n[g].store.len() implies (
                #[trigger] n[g].store[a]).0 != (#[trigger] n[g].store[b]).0 by {
                if g != f {
                    assert(n[g] == frames[g]);
                } else {
                    assert(n[g].store[a].0 == frames[g].store[a].0);
                    assert(n[g].store[b].0 == frames[g].store[b].0);
                }
            }
            assert forall|g: int| 0 <= g < n.len() implies match #[trigger] n[g].outer {
                Some(p) => p < g,
                None => true,
            } by {
                assert(n[g].outer == frames[g].outer);
            }
        },
        None => {
            match frames[f as int].outer {
                Some(p) => {
                    if p < f {
                        lemma_assign_wf(frames, p, cur, name, v);
                    }
                },
                None => {},
            }
        },
    }
}

/// Bindings with the same names in the same places find a name in the same place.
pub proof fn lemma_key_index_same_names(
    s1: Seq<(Seq<char>, ObjectM)>,
    s2: Seq<(Seq<char>, ObjectM)>,
    name: Seq<char>,
)
    requires
        s1.len() == s2.len(),
        forall|j: int| 0 <= j < s1.len() ==> (#[trigger] s1[j]).0 == s2[j].0,
    ensures
        key_index(s1, name) == key_index(s2, name),
    decreases s1.len(),
{
    if s1.len() > 0 {
        let (front1, front2) = (s1.subrange(0, s1.len() - 1), s2.subrange(0, s2.len() - 1));
        assert forall|j: int| 0 <= j < front1.len() implies (#[trigger] front1[j]).0 == front2[j].0 by {
            assert(s1[j].0 == s2[j].0);
        }
        lemma_key_index_same_names(front1, front2, name);
    }
}

/// The binding of a name just declared is found in the current frame.
pub proof fn lemma_declare_here(m: ScopeM, name: Seq<char>, obj: ObjectM)
    requires
        m.wf(),
    ensures
        key_index(m.declare(name, obj).here(), name) matches Some(k) && m.declare(name, obj).here()[k as int]
            == (name, obj),
        m.declare(name, obj).lookup(name) == Some(obj),
{
    let here = m.here();
    let s2 = bind_m(here, name, obj);
    lemma_key_index(here, name);
    match key_index(here, name) {
        Some(k) => {
            assert forall|j: int| 0 <= j < s2.len() implies (#[trigger] s2[j]).0 == here[j].0 by {}
            lemma_key_index_same_names(s2, here, name);
        },
        None => {
            assert(s2[s2.len() - 1].0 == name);
        },
    }
    assert(m.declare(name, obj).here() == s2);
}

/// Frames that agree up to `f` give the same lookups from `f`.
pub proof fn lemma_lookup_prefix(f1: Seq<FrameM>, f2: Seq<FrameM>, f: nat, name: Seq<char>)
    requires
        f < f1.len(),
        f < f2.len(),
        forall|i: int| 0 <= i <= f ==> #[trigger] f1[i] == f2[i],
    ensures
        lookup_from(f1, f, name) == lookup_from(f2, f, name),
    decreases f,
{
    assert(f1[f as int] == f2[f as int]);
    match f1[f as int].outer {
        Some(p) => if p < f {
            lemma_lookup_prefix(f1, f2, p, name);
        },
        None => {},
    }
}

/// Declaring one name leaves the lookup of any other name as it was.
pub proof fn lemma_declare_other(m: ScopeM, name: Seq<char>, obj: ObjectM, x: Seq<char>)
    requires
        m.wf(),
        x != name,
    ensures
        m.declare(name, obj).lookup(x) == m.lookup(x),
{
    let here = m.here();
    let s2 = bind_m(here, name, obj);
    lemma_key_index(here, name);
    match key_index(here, name) {
        Some(k) => {
            assert forall|j: int| 0 <= j < s2.len() implies (#[trigger] s2[j]).0 == here[j].0 by {}
            lemma_key_index_same_names(s2, here, x);
            lemma_key_index(here, x);
            match key_index(here, x) {
                Some(kx) => {
                    assert(kx != k);
                },
                None => {},
            }
        },
        None => {
            assert(s2.subrange(0, here.len() as int) =~= here);
            lemma_key_index(here, x);
        },
    }
    let n = m.declare(name, obj);
    assert(n.here() == s2);
    assert(key_index(n.here(), x) == key_index(here, x));
    match key_index(here, x) {
        Some(kx) => {
            assert(n.here()[kx as int] == here[kx as int]);
        },
        None => {},
    }
    match m.frames[m.current as int].outer {
        Some(p) => if p < m.current {
            lemma_lookup_prefix(n.frames, m.frames, p, x);
        },
        None => {},
    }
}

/// Where `name` is bound in a frame's bindings.
fn find_key(store: &Vec<(String, Object)>, name: &String) -> (r: Option<usize>)
    ensures
        key_index(store_m(store@), name@) == match r {
            Some(k) => Some(k as nat),
            None => None,
        },
{
    let ghost m = store_m(store@);
    let mut k: usize = store.len();
    assert(m.subrange(0, k as int) =~= m);
    while k > 0
        invariant
            k <= store@.len(),
            m == store_m(store@),
            key_index(m, name@) == key_index(m.subrange(0, k as int), name@),
        decreases k,
    {
        k -= 1;
        assert(m.subrange(0, k + 1).subrange(0, k as int) =~= m.subrange(0, k as int));
        if store[k].0 == *name {
            return Some(k);
        }
    }
    None
}

impl Scope {
    /// A fresh scope: one empty root frame.
    pub fn new() -> (r: Scope)
        ensures
            r@ == ScopeM::root(),
            r@.wf(),
    {
        let root = Frame { store: Vec::new(), outer: None, func_id: "root".to_owned() };
        let mut frames: Vec<Frame> = Vec::new();
        frames.push(root);
        let r = Scope { frames, current: 0 };
        assert(store_m(r.frames@[0].store@) =~= Seq::empty());
        assert(r@.frames =~= ScopeM::root().frames);
        r
    }

    /// The number of bindings in the current frame itself.
    pub fn get_store_len(&self) -> (r: usize)
        requires
            self@.wf(),
        ensures
            r == self@.here().len(),
    {
        self.frames[self.current].store.len()
    }

    /// A scope whose current frame is new, empty and nested in the current
    /// frame of `outer_scope`.
    pub fn from_scope(func_id: String, outer_scope: Scope) -> (r: Scope)
        requires
            outer_scope@.wf(),
        ensures
            r@ == outer_scope@.enter(outer_scope@.current),
            r@.wf(),
    {
        let mut scope = outer_scope;
        let outer = scope.current;
        scope.enter(outer, func_id);
        scope
    }

    /// Opens a new empty frame nested in frame `outer` and makes it current.
    pub fn enter(&mut self, outer: usize, func_id: String)
        requires
            old(self)@.wf(),
            outer < old(self)@.frames.len(),
        ensures
            final(self)@ == old(self)@.enter(outer as nat),
            final(self)@.wf(),
    {
        let ghost before = self@;
        let index = self.frames.len();
        self.frames.push(Frame { store: Vec::new(), outer: Some(outer), func_id });
        self.current = index;
        assert(store_m(self.frames@[index as int].store@) =~= Seq::empty());
        assert(self@.frames =~= before.enter(outer as nat).frames);
    }

    /// The index of the current frame.
    pub fn current_frame(&self) -> (r: usize)
        ensures
            r == self@.current,
    {
        self.current
    }

    /// The number of frames.
    pub fn frame_count(&self) -> (r: usize)
        ensures
            r == self@.frames.len(),
    {
        self.frames.len()
    }

    /// Makes frame `f` current again.
    pub fn set_current(&mut self, f: usize)
        requires
            old(self)@.wf(),
            f < old(self)@.frames.len(),
        ensures
            final(self)@ == (ScopeM { current: f as nat, ..old(self)@ }),
            final(self)@.wf(),
    {
        self.current = f;
    }

    /// The same frames, seen from the frame that the current one is nested in.
    pub fn parent(self) -> (r: Option<Scope>)
        requires
            self@.wf(),
        ensures
            match self@.frames[self@.current as int].outer {
                Some(p) => (r matches Some(s) && s@ == (ScopeM { current: p, ..self@ }) && s@.wf()),
                None => r is None,
            },
    {
        let mut scope = self;
        match scope.frames[scope.current].outer {
            Some(p) => {
                scope.current = p;
                Some(scope)
            },
            None => None,
        }
    }

    /// Whether any frame before `base` refers to frame `base` or a later one.
    pub fn frames_refer_to(&self, base: usize) -> (r: bool)
        requires
            self@.wf(),
            base <= self@.frames.len(),
        ensures
            r == frames_refs(self@.frames, base as nat, base as nat),
    {
        let mut i: usize = 0;
        let mut found = false;
        while i < base
            invariant
                i <= base <= self@.frames.len(),
                found == frames_refs(self@.frames, i as nat, base as nat),
            decreases base - i,
        {
            let store = &self.frames[i].store;
            let ghost sm = store_m(store@);
            let mut k: usize = 0;
            let mut here = false;
            while k < store.len()
                invariant
                    k <= store@.len(),
                    sm == store_m(store@),
                    here == store_refs(sm.subrange(0, k as int), base as nat),
                decreases store@.len() - k,
            {
                let o = refers_object(&store[k].1, base);
                assert(sm.subrange(0, k + 1).subrange(0, k as int) =~= sm.subrange(0, k as int));
                here = here || o;
                k += 1;
            }
            assert(sm.subrange(0, k as int) =~= sm);
            assert(self@.frames[i as int].store == sm);
            found = found || here;
            i += 1;
        }
        found
    }

    /// Drops the frames from `base` on.
    pub fn drop_frames_from(&mut self, base: usize)
        requires
            old(self)@.wf(),
            old(self)@.current < base <= old(self)@.frames.len(),
        ensures
            final(self)@ == (ScopeM {
                frames: old(self)@.frames.subrange(0, base as int),
                ..old(self)@
            }),
            final(self)@.wf(),
    {
        let ghost before = self@;
        self.frames.truncate(base);
        assert(self@.frames =~= before.frames.subrange(0, base as int));
    }

    /// Whether the current frame itself binds `name`.
    pub fn is_bound_here(&self, name: &String) -> (r: bool)
        requires
            self@.wf(),
        ensures
            r == key_index(self@.here(), name@) is Some,
    {
        find_key(&self.frames[self.current].store, name).is_some()
    }

    /// Binds `name` to `obj` in the current frame; returns the binding it replaced.
    fn bind(&mut self, name: String, obj: Object) -> (r: Option<Object>)
        requires
            old(self)@.wf(),
        ensures
            final(self)@ == old(self)@.declare(name@, object_m(obj)),
            final(self)@.wf(),
            match key_index(old(self)@.here(), name@) {
                Some(k) => r matches Some(o) && object_m(o) == old(self)@.here()[k as int].1,
                None => r is None,
            },
    {
        let ghost before = self@;
        let ghost entry = (name@, object_m(obj));
        proof {
            lemma_declare_wf(before, name@, object_m(obj));
            lemma_key_index(before.here(), name@);
        }
        let cur = self.current;
        let k = find_key(&self.frames[cur].store, &name);
        let mut frame = Frame { store: Vec::new(), outer: None, func_id: String::new() };
        self.frames.set_and_swap(cur, &mut frame);
        let ghost old_store = frame.store@;
        assert(before.here() == store_m(old_store));
        let replaced = match k {
            Some(k) => {
                let mut b = (name, obj);
                frame.store.set_and_swap(k, &mut b);
                assert(store_m(frame.store@) =~= store_m(old_store).update(k as int, entry));
                Some(b.1)
            },
            None => {
                frame.store.push((name, obj));
                assert(store_m(frame.store@) =~= store_m(old_store).push(entry));
                None
            },
        };
        assert(store_m(frame.store@) == bind_m(before.here(), entry.0, entry.1));
        assert(frame_m(frame) == before.declare(entry.0, entry.1).frames[cur as int]);
        self.frames.set_and_swap(cur, &mut frame);
        assert(self@.frames =~= before.declare(entry.0, entry.1).frames);
        replaced
    }

    /// Declares a variable without a value in the current frame only.
    pub fn bind_uninitialized(&mut self, id: String) -> (r: Option<Object>)
        requires
            old(self)@.wf(),
        ensures
            final(self)@ == old(self)@.declare(id@, ObjectM::Uninitialized),
            final(self)@.wf(),
    {
        self.bind(id, Object::Uninitialized)
    }

    /// Declares a variable in the current frame only; returns the binding it replaced.
    pub fn dec_var(&mut self, id: String, val: StackValue) -> (r: Option<Object>)
        requires
            old(self)@.wf(),
        ensures
            final(self)@ == old(self)@.declare(id@, ObjectM::Value { value: value_m(val) }),
            final(self)@.wf(),
            match key_index(old(self)@.here(), id@) {
                Some(k) => r matches Some(o) && object_m(o) == old(self)@.here()[k as int].1,
                None => r is None,
            },
    {
        self.bind(id, Object::Value { value: val })
    }

    /// Declares a function in the current frame, closing over that frame;
    /// returns the binding it replaced.
    pub fn dec_func(&mut self, name: String, params: Vec<String>, block: Vec<Instruction>) -> (r:
        Option<Object>)
        requires
            old(self)@.wf(),
        ensures
            final(self)@ == old(self)@.declare(
                name@,
                ObjectM::Function {
                    scope: old(self)@.current,
                    func: FunctionM { name: name@, params: names_m(params@), block: instrs_m(block@) },
                },
            ),
            final(self)@.wf(),
            match key_index(old(self)@.here(), name@) {
                Some(k) => r matches Some(o) && object_m(o) == old(self)@.here()[k as int].1,
                None => r is None,
            },
    {
        let key = name.clone();
        let func = Function { name, params, block };
        self.bind(key, Object::Function { scope: self.current, func })
    }

    /// Sets the nearest binding of `id`, searching outward from the current
    /// frame; `None`, and no change, where no frame binds `id`.
    pub fn set_var(&mut self, id: String, val: StackValue) -> (r: Option<StackValue>)
        requires
            old(self)@.wf(),
        ensures
            final(self)@.wf(),
            match old(self)@.assign(id@, value_m(val)) {
                Some(m) => final(self)@ == m && (r matches Some(v) && value_m(v) == value_m(val)),
                None => final(self)@ == old(self)@ && r is None,
            },
    {
        let ghost before = self@;
        let mut f = self.current;
        loop
            invariant
                self@ == before,
                before == old(self)@,
                before.wf(),
                f < before.frames.len(),
                assign_from(before.frames, before.current, id@, value_m(val)) == assign_from(
                    before.frames,
                    f as nat,
                    id@,
                    value_m(val),
                ),
            decreases f,
        {
            let ghost fm = before.frames[f as int];
            proof {
                lemma_key_index(fm.store, id@);
                assert(fm == frame_m(self.frames@[f as int]));
            }
            match find_key(&self.frames[f].store, &id) {
                Some(k) => {
                    let result = copy_value(&val);
                    let ghost entry = (id@, ObjectM::Value { value: value_m(val) });
                    let mut frame = Frame { store: Vec::new(), outer: None, func_id: String::new() };
                    self.frames.set_and_swap(f, &mut frame);
                    let ghost old_store = frame.store@;
                    assert(fm.store == store_m(old_store));
                    let mut b = (id, Object::Value { value: val });
                    frame.store.set_and_swap(k, &mut b);
                    assert(store_m(frame.store@) =~= store_m(old_store).update(k as int, entry));
                    self.frames.set_and_swap(f, &mut frame);
                    proof {
                        lemma_assign_wf(before.frames, f as nat, before.current, id@, value_m(val));
                        lemma_assign_wf(before.frames, before.current, before.current, id@, value_m(val));
                    }
                    assert(self@.frames =~= assign_from(before.frames, f as nat, id@, value_m(val)).unwrap());
                    assert(self@ == before.assign(id@, value_m(val)).unwrap());
                    return Some(result);
                },
                None => {
                    match self.frames[f].outer {
                        Some(p) => {
                            f = p;
                        },
                        None => {
                            return None;
                        },
                    }
                },
            }
        }
    }

    /// The nearest binding of `id`, searching outward from the current frame.
    pub fn get_var(&self, id: String) -> (r: Option<Object>)
        requires
            self@.wf(),
        ensures
            match self@.lookup(id@) {
                Some(o) => r matches Some(x) && object_m(x) == o,
                None => r is None,
            },
    {
        let mut f = self.current;
        loop
            invariant
                self@.wf(),
                f < self@.frames.len(),
                self@.lookup(id@) == lookup_from(self@.frames, f as nat, id@),
            decreases f,
        {
            proof {
                lemma_key_index(self@.frames[f as int].store, id@);
            }
            match find_key(&self.frames[f].store, &id) {
                Some(k) => {
                    assert(self@.frames[f as int].store == store_m(self.frames@[f as int].store@));
                    return Some(copy_object(&self.frames[f].store[k].1));
                },
                None => {
                    match self.frames[f].outer {
                        Some(p) => {
                            f = p;
                        },
                        None => {
                            return None;
                        },
                    }
                },
            }
        }
    }
}

impl Clone for Function {
    fn clone(&self) -> (r: Self)
        ensures
            function_m(r) == function_m(*self),
    {
        copy_function(self)
    }
}

impl Clone for Object {
    fn clone(&self) -> (r: Self)
        ensures
            object_m(r) == object_m(*self),
    {
        copy_object(self)
    }
}

} // verus!
