use vstd::prelude::*;

use crate::ast::Expression;
use crate::errors::{Fault, RuntimeErrorKind};
use crate::value::{JmlValue, Val};

verus! {

/// What a name is bound to: an expression evaluated afresh at every
/// reference, or a value.
#[derive(Debug)]
pub enum Binding<'a> {
    Expression(&'a Expression),
    Value(JmlValue<'a>),
}

pub enum BindingModel {
    Expression(Expression),
    Value(Val),
}

impl<'a> View for Binding<'a> {
    type V = BindingModel;

    open spec fn view(&self) -> BindingModel {
        match *self {
            Binding::Expression(e) => BindingModel::Expression(*e),
            Binding::Value(v) => BindingModel::Value(v@),
        }
    }
}

impl<'a> Binding<'a> {
    pub fn copy(&self) -> (r: Binding<'a>)
        ensures
            r@ == self@,
    {
        match self {
            Binding::Expression(e) => Binding::Expression(*e),
            Binding::Value(v) => Binding::Value(v.clone()),
        }
    }
}

/// A store of named bindings, in the order the names were first bound.
pub type Store = Seq<(Seq<char>, BindingModel)>;

/// The index of the entry for `name` in `s`, if any.
pub open spec fn find_name(s: Store, name: Seq<char>) -> Option<int> {
    if exists|i: int| 0 <= i < s.len() && s[i].0 == name {
        Some(choose|i: int| 0 <= i < s.len() && s[i].0 == name)
    } else {
        None
    }
}

/// Names occur at most once.
pub open spec fn names_unique(s: Store) -> bool {
    forall|i: int, j: int| 0 <= i < s.len() && 0 <= j < s.len() && s[i].0 == s[j].0 ==> i == j
}

/// The binding of `name` in `s`, if any.
pub open spec fn store_get(s: Store, name: Seq<char>) -> Option<BindingModel> {
    match find_name(s, name) {
        Some(i) => Some(s[i].1),
        None => None,
    }
}

/// The store after binding `name` to `b`: an existing entry is replaced in
/// place, a new name goes last.
pub open spec fn store_put(s: Store, name: Seq<char>, b: BindingModel) -> Store {
    match find_name(s, name) {
        Some(i) => s.update(i, (name, b)),
        None => s.push((name, b)),
    }
}

/// Name resolution: the innermost local frame if one is active, then the
/// top-level store. Outer frames are not consulted.
pub open spec fn resolve(globals: Store, frames: Seq<Store>, name: Seq<char>) -> Option<BindingModel> {
    if frames.len() > 0 && store_get(frames.last(), name) is Some {
        store_get(frames.last(), name)
    } else {
        store_get(globals, name)
    }
}

/// The environment of an evaluation: the top-level bindings, a stack of local
/// frames pushed by lambda applications, and the entries written by `log`.
#[derive(Debug)]
pub struct Context<'a> {
    bindings: Vec<(String, Binding<'a>)>,
    frames: Vec<Vec<(String, Binding<'a>)>>,
    logged: Vec<(JmlValue<'a>, JmlValue<'a>)>,
}

/// An evaluation leaves the bindings and the frames as it found them, and
/// only appends to the log.
pub open spec fn preserved(pre: Context, post: Context) -> bool {
    &&& post.well_formed()
    &&& post.globals() == pre.globals()
    &&& post.frames() == pre.frames()
    &&& pre.log_model().len() <= post.log_model().len()
    &&& post.log_model().subrange(0, pre.log_model().len() as int) == pre.log_model()
}

pub broadcast proof fn lemma_preserved_trans(a: Context, b: Context, c: Context)
    requires
        #[trigger] preserved(a, b),
        #[trigger] preserved(b, c),
    ensures
        preserved(a, c),
{
    let n = a.log_model().len() as int;
    assert(c.log_model().subrange(0, n) =~= c.log_model().subrange(
        0,
        b.log_model().len() as int,
    ).subrange(0, n));
}

pub broadcast proof fn lemma_preserved_refl(a: Context)
    requires
        a.well_formed(),
    ensures
        #[trigger] preserved(a, a),
{
    assert(a.log_model().subrange(0, a.log_model().len() as int) =~= a.log_model());
}

pub open spec fn store_model(s: Seq<(String, Binding)>) -> Store {
    Seq::new(s.len(), |i: int| (s[i].0@, s[i].1@))
}

impl<'a> Context<'a> {
    pub closed spec fn globals(&self) -> Store {
        store_model(self.bindings@)
    }

    pub closed spec fn frames(&self) -> Seq<Store> {
        Seq::new(self.frames@.len(), |i: int| store_model(self.frames@[i]@))
    }

    /// The `(label, value)` pairs written by `log`, oldest first.
    pub closed spec fn log_model(&self) -> Seq<(Val, Val)> {
        Seq::new(self.logged@.len(), |i: int| (self.logged@[i].0@, self.logged@[i].1@))
    }

    pub closed spec fn well_formed(&self) -> bool {
        &&& names_unique(self.globals())
        &&& forall|i: int| 0 <= i < self.frames().len() ==> names_unique(#[trigger] self.frames()[i])
    }

    pub open spec fn lookup_model(&self, name: Seq<char>) -> Option<BindingModel> {
        resolve(self.globals(), self.frames(), name)
    }

    pub fn new() -> (r: Self)
        ensures
            r.globals() == Store::empty(),
            r.frames() == Seq::<Store>::empty(),
            r.log_model() == Seq::<(Val, Val)>::empty(),
            r.well_formed(),
    {
        let r = Context { bindings: Vec::new(), frames: Vec::new(), logged: Vec::new() };
        assert(r.globals() =~= Store::empty());
        assert(r.frames() =~= Seq::<Store>::empty());
        assert(r.log_model() =~= Seq::<(Val, Val)>::empty());
        r
    }

    fn position(store: &Vec<(String, Binding<'a>)>, name: &String) -> (r: Option<usize>)
        ensures
            r matches Some(i) ==> (i < store@.len() && store@[i as int].0@ == name@),
            r is None ==> find_name(store_model(store@), name@) is None,
    {
        let mut i: usize = 0;
        while i < store.len()
            invariant
                i <= store@.len(),
                forall|j: int| 0 <= j < i ==> (#[trigger] store@[j]).0@ != name@,
            decreases store@.len() - i,
        {
            if store[i].0 == *name {
                return Some(i);
            }
            i = i + 1;
        }
        assert(!exists|j: int| 0 <= j < store@.len() && store_model(store@)[j].0 == name@) by {
            assert forall|j: int| 0 <= j < store@.len() implies store_model(store@)[j].0 != name@ by {
                assert(store@[j].0@ != name@);
            }
        }
        None
    }

    proof fn lemma_unique_find(s: Store, name: Seq<char>, i: int)
        requires
            names_unique(s),
            0 <= i < s.len(),
            s[i].0 == name,
        ensures
            find_name(s, name) == Some(i),
    {
    }

    fn put(store: &mut Vec<(String, Binding<'a>)>, name: String, b: Binding<'a>)
        requires
            names_unique(store_model(old(store)@)),
        ensures
            store_model(final(store)@) == store_put(store_model(old(store)@), name@, b@),
            names_unique(store_model(final(store)@)),
    {
        let ghost before = store_model(store@);
        match Self::position(store, &name) {
            Some(i) => {
                proof {
                    Self::lemma_unique_find(before, name@, i as int);
                }
                store.set(i, (name, b));
                assert(store_model(store@) =~= before.update(i as int, (name@, b@)));
            },
            None => {
                store.push((name, b));
                assert(store_model(store@) =~= before.push((name@, b@)));
            },
        }
    }

    fn get(store: &Vec<(String, Binding<'a>)>, name: &String) -> (r: Option<Binding<'a>>)
        requires
            names_unique(store_model(store@)),
        ensures
            r matches Some(b) ==> store_get(store_model(store@), name@) == Some(b@),
            r is None ==> store_get(store_model(store@), name@) is None,
    {
        match Self::position(store, name) {
            Some(i) => {
                proof {
                    Self::lemma_unique_find(store_model(store@), name@, i as int);
                }
                Some(store[i].1.copy())
            },
            None => None,
        }
    }

    /// Binds `name` at the top level to an expression that is evaluated at
    /// every reference.
    pub fn bind_with_expr(&mut self, name: String, expr: &'a Expression)
        requires
            old(self).well_formed(),
        ensures
            final(self).well_formed(),
            final(self).globals() == store_put(
                old(self).globals(),
                name@,
                BindingModel::Expression(*expr),
            ),
            final(self).frames() == old(self).frames(),
            final(self).log_model() == old(self).log_model(),
    {
        Self::put(&mut self.bindings, name, Binding::Expression(expr));
        assert(self.frames() =~= old(self).frames());
    }

    /// Binds `name` at the top level to a value.
    pub fn bind_with_value(&mut self, name: String, value: JmlValue<'a>)
        requires
            old(self).well_formed(),
        ensures
            final(self).well_formed(),
            final(self).globals() == store_put(old(self).globals(), name@, BindingModel::Value(value@)),
            final(self).frames() == old(self).frames(),
            final(self).log_model() == old(self).log_model(),
    {
        Self::put(&mut self.bindings, name, Binding::Value(value));
        assert(self.frames() =~= old(self).frames());
    }

    /// Resolves `name`: the innermost local frame first, then the top level.
    pub fn lookup_variable(&self, name: &String) -> (r: Result<Binding<'a>, RuntimeErrorKind>)
        requires
            self.well_formed(),
        ensures
            self.lookup_model(name@) matches Some(b) ==> (r matches Ok(x) && x@ == b),
            self.lookup_model(name@) is None ==> (r matches Err(e) && e@ == (Fault::UndefinedVariable { name: name@ })),
    {
        let n = self.frames.len();
        if n > 0 {
            proof {
                assert(self.frames()[n - 1] == store_model(self.frames@[n - 1]@));
            }
            match Self::get(&self.frames[n - 1], name) {
                Some(b) => {
                    return Ok(b);
                },
                None => {},
            }
        }
        match Self::get(&self.bindings, name) {
            Some(b) => Ok(b),
            None => Err(RuntimeErrorKind::UndefinedVariable { name: name.clone() }),
        }
    }

    /// Activates `frame`'s top-level bindings as the innermost local frame.
    pub fn push_local(&mut self, frame: Context<'a>)
        requires
            old(self).well_formed(),
            frame.well_formed(),
        ensures
            final(self).well_formed(),
            final(self).globals() == old(self).globals(),
            final(self).frames() == old(self).frames().push(frame.globals()),
            final(self).log_model() == old(self).log_model(),
    {
        self.frames.push(frame.bindings);
        assert(self.frames() =~= old(self).frames().push(frame.globals()));
    }

    /// Deactivates the innermost local frame.
    pub fn pop_local(&mut self)
        requires
            old(self).well_formed(),
            old(self).frames().len() > 0,
        ensures
            final(self).well_formed(),
            final(self).globals() == old(self).globals(),
            final(self).frames() == old(self).frames().drop_last(),
            final(self).log_model() == old(self).log_model(),
    {
        self.frames.pop();
        assert(self.frames() =~= old(self).frames().drop_last());
    }

    /// Appends a `(label, value)` entry to the log.
    pub fn record_log(&mut self, label: JmlValue<'a>, value: JmlValue<'a>)
        ensures
            final(self).well_formed() == old(self).well_formed(),
            final(self).globals() == old(self).globals(),
            final(self).frames() == old(self).frames(),
            final(self).log_model() == old(self).log_model().push((label@, value@)),
    {
        self.logged.push((label, value));
        assert(self.frames() =~= old(self).frames());
        assert(self.globals() =~= old(self).globals());
        assert(self.log_model() =~= old(self).log_model().push((label@, value@)));
    }

    /// Hands out the log entries written so far and clears the log.
    pub fn take_log(&mut self) -> (r: Vec<(JmlValue<'a>, JmlValue<'a>)>)
        ensures
            Seq::new(r@.len(), |i: int| (r@[i].0@, r@[i].1@)) == old(self).log_model(),
            final(self).log_model() == Seq::<(Val, Val)>::empty(),
            final(self).well_formed() == old(self).well_formed(),
            final(self).globals() == old(self).globals(),
            final(self).frames() == old(self).frames(),
    {
        let mut r: Vec<(JmlValue<'a>, JmlValue<'a>)> = Vec::new();
        core::mem::swap(&mut r, &mut self.logged);
        assert(self.frames() =~= old(self).frames());
        assert(self.globals() =~= old(self).globals());
        assert(self.log_model() =~= Seq::<(Val, Val)>::empty());
        r
    }
}

} // verus!
