//! Cache of JNI class references and method IDs.
//!
//! It is filled once, when the library is loaded, so that application classes
//! resolve under the correct class loader. After that, callers on the hot path skip
//! the lookup of the class and the parsing of type signatures on each call.
//!
//! The lookups themselves need a Java virtual machine. `JniCacheInit` says which
//! lookup comes next, takes what it found, and hands out the filled cache.

use vstd::prelude::*;

verus! {

/// What to look up in the virtual machine.
#[derive(Debug)]
pub enum JniLookup {
    /// The class with the given name, as a global reference.
    Class { name: &'static str },
    /// A method of the class that was found last.
    Method { name: &'static str, signature: &'static str },
    /// A static method of the class that was found last.
    StaticMethod { name: &'static str, signature: &'static str },
}

/// What a lookup found.
#[derive(Debug)]
pub enum JniHandle<C, M, S> {
    Class(C),
    Method(M),
    StaticMethod(S),
}

/// How a lookup came out.
#[derive(Debug)]
pub enum JniOutcome<C, M, S, E> {
    Found(JniHandle<C, M, S>),
    Failed(E),
}

/// Why a cache is not filled.
#[derive(Debug)]
pub enum JniInitError<E> {
    /// A lookup failed.
    Lookup(E),
    /// What was found is not what was looked for.
    Mismatch,
}

/// How many lookups fill the cache.
pub const LOOKUP_COUNT: usize = 16;

/// The lookups that fill the cache, in order.
pub open spec fn lookups() -> Seq<JniLookup> {
    seq![
        JniLookup::Class { name: "java/lang/Long" },
        JniLookup::Method { name: "<init>", signature: "(J)V" },
        JniLookup::Class { name: "java/lang/Double" },
        JniLookup::Method { name: "<init>", signature: "(D)V" },
        JniLookup::Class { name: "java/lang/Boolean" },
        JniLookup::Method { name: "<init>", signature: "(Z)V" },
        JniLookup::Class { name: "java/lang/Float" },
        JniLookup::Method { name: "<init>", signature: "(F)V" },
        JniLookup::Class { name: "java/util/ArrayList" },
        JniLookup::Method { name: "<init>", signature: "()V" },
        JniLookup::Method { name: "add", signature: "(Ljava/lang/Object;)Z" },
        JniLookup::Class { name: "java/util/HashMap" },
        JniLookup::Method { name: "<init>", signature: "()V" },
        JniLookup::Method {
            name: "put",
            signature: "(Ljava/lang/Object;Ljava/lang/Object;)Ljava/lang/Object;",
        },
        JniLookup::Class { name: "java/util/Optional" },
        JniLookup::StaticMethod {
            name: "ofNullable",
            signature: "(Ljava/lang/Object;)Ljava/util/Optional;",
        },
    ]
}

/// The class that the `i`-th lookup is made in is the one found by lookup `at`: the
/// last class looked up before.
pub open spec fn is_class_of(at: int, i: int) -> bool {
    &&& 0 <= at < i
    &&& lookups()[at] is Class
    &&& forall|j: int| at < j < i ==> lookups()[j] !is Class
}

/// The handle is of the kind that was looked for.
pub open spec fn answers<C, M, S>(handle: JniHandle<C, M, S>, lookup: JniLookup) -> bool {
    match lookup {
        JniLookup::Class { .. } => handle is Class,
        JniLookup::Method { .. } => handle is Method,
        JniLookup::StaticMethod { .. } => handle is StaticMethod,
    }
}

/// The handles answer the lookups one after the other.
pub open spec fn all_answer<C, M, S>(handles: Seq<JniHandle<C, M, S>>) -> bool {
    &&& handles.len() <= LOOKUP_COUNT
    &&& forall|i: int| 0 <= i < handles.len() ==> answers(#[trigger] handles[i], lookups()[i])
}

/// The class references and method IDs that callers on the hot path use. `C`, `M`
/// and `S` are how the virtual machine represents a class, a method and a static
/// method.
#[derive(Debug)]
pub struct JniCache<C, M, S> {
    pub long_class: C,
    pub long_ctor: M,
    pub double_class: C,
    pub double_ctor: M,
    pub boolean_class: C,
    pub boolean_ctor: M,
    pub float_class: C,
    pub float_ctor: M,
    pub array_list_class: C,
    pub array_list_ctor: M,
    pub array_list_add: M,
    pub hash_map_class: C,
    pub hash_map_ctor: M,
    pub hash_map_put: M,
    pub optional_class: C,
    pub optional_of_nullable: S,
}

/// The cache that the handles fill, one for each lookup.
pub open spec fn filled<C, M, S>(handles: Seq<JniHandle<C, M, S>>) -> JniCache<C, M, S> {
    JniCache {
        long_class: handles[0]->Class_0,
        long_ctor: handles[1]->Method_0,
        double_class: handles[2]->Class_0,
        double_ctor: handles[3]->Method_0,
        boolean_class: handles[4]->Class_0,
        boolean_ctor: handles[5]->Method_0,
        float_class: handles[6]->Class_0,
        float_ctor: handles[7]->Method_0,
        array_list_class: handles[8]->Class_0,
        array_list_ctor: handles[9]->Method_0,
        array_list_add: handles[10]->Method_0,
        hash_map_class: handles[11]->Class_0,
        hash_map_ctor: handles[12]->Method_0,
        hash_map_put: handles[13]->Method_0,
        optional_class: handles[14]->Class_0,
        optional_of_nullable: handles[15]->StaticMethod_0,
    }
}

fn pop_class<C, M, S>(handles: &mut Vec<JniHandle<C, M, S>>) -> (r: C)
    requires
        old(handles)@.len() > 0,
        old(handles)@.last() is Class,
    ensures
        final(handles)@ == old(handles)@.drop_last(),
        r == old(handles)@.last()->Class_0,
{
    match handles.pop() {
        Some(JniHandle::Class(class)) => class,
        _ => vstd::pervasive::unreached(),
    }
}

fn pop_method<C, M, S>(handles: &mut Vec<JniHandle<C, M, S>>) -> (r: M)
    requires
        old(handles)@.len() > 0,
        old(handles)@.last() is Method,
    ensures
        final(handles)@ == old(handles)@.drop_last(),
        r == old(handles)@.last()->Method_0,
{
    match handles.pop() {
        Some(JniHandle::Method(method)) => method,
        _ => vstd::pervasive::unreached(),
    }
}

fn pop_static_method<C, M, S>(handles: &mut Vec<JniHandle<C, M, S>>) -> (r: S)
    requires
        old(handles)@.len() > 0,
        old(handles)@.last() is StaticMethod,
    ensures
        final(handles)@ == old(handles)@.drop_last(),
        r == old(handles)@.last()->StaticMethod_0,
{
    match handles.pop() {
        Some(JniHandle::StaticMethod(method)) => method,
        _ => vstd::pervasive::unreached(),
    }
}

impl<C, M, S> JniCache<C, M, S> {
    /// Starts to fill a cache.
    pub fn init() -> (r: JniCacheInit<C, M, S>)
        ensures
            r@ == Seq::<JniHandle<C, M, S>>::empty(),
    {
        JniCacheInit { handles: Vec::new() }
    }

    /// The cache that `slot` holds once it is filled.
    pub fn get(slot: Option<&Self>) -> (r: &Self)
        requires
            slot is Some,
        ensures
            slot == Some(r),
    {
        slot.unwrap()
    }

    /// The cache that the handles fill, one for each lookup.
    fn from_handles(mut handles: Vec<JniHandle<C, M, S>>) -> (r: Self)
        requires
            handles@.len() == LOOKUP_COUNT,
            all_answer(handles@),
        ensures
            r == filled(handles@),
    {
        let ghost all = handles@;
        assert(forall|i: int| 0 <= i < 16 ==> answers(#[trigger] all[i], lookups()[i]));
        let optional_of_nullable = pop_static_method(&mut handles);
        let optional_class = pop_class(&mut handles);
        let hash_map_put = pop_method(&mut handles);
        let hash_map_ctor = pop_method(&mut handles);
        let hash_map_class = pop_class(&mut handles);
        let array_list_add = pop_method(&mut handles);
        let array_list_ctor = pop_method(&mut handles);
        let array_list_class = pop_class(&mut handles);
        let float_ctor = pop_method(&mut handles);
        let float_class = pop_class(&mut handles);
        let boolean_ctor = pop_method(&mut handles);
        let boolean_class = pop_class(&mut handles);
        let double_ctor = pop_method(&mut handles);
        let double_class = pop_class(&mut handles);
        let long_ctor = pop_method(&mut handles);
        let long_class = pop_class(&mut handles);
        JniCache {
            long_class,
            long_ctor,
            double_class,
            double_ctor,
            boolean_class,
            boolean_ctor,
            float_class,
            float_ctor,
            array_list_class,
            array_list_ctor,
            array_list_add,
            hash_map_class,
            hash_map_ctor,
            hash_map_put,
            optional_class,
            optional_of_nullable,
        }
    }
}

/// A cache that is being filled.
#[derive(Debug)]
pub struct JniCacheInit<C, M, S> {
    handles: Vec<JniHandle<C, M, S>>,
}

impl<C, M, S> View for JniCacheInit<C, M, S> {
    type V = Seq<JniHandle<C, M, S>>;

    /// What the lookups so far have found.
    closed spec fn view(&self) -> Seq<JniHandle<C, M, S>> {
        self.handles@
    }
}

/// What follows when a lookup comes out as `outcome` after the lookups so far have
/// found `handles`.
pub open spec fn after_outcome<C, M, S, E>(
    handles: Seq<JniHandle<C, M, S>>,
    outcome: JniOutcome<C, M, S, E>,
) -> Result<Seq<JniHandle<C, M, S>>, JniInitError<E>> {
    match outcome {
        JniOutcome::Failed(e) => Err(JniInitError::Lookup(e)),
        JniOutcome::Found(handle) => if handles.len() < LOOKUP_COUNT && answers(
            handle,
            lookups()[handles.len() as int],
        ) {
            Ok(handles.push(handle))
        } else {
            Err(JniInitError::Mismatch)
        },
    }
}

impl<C, M, S> JniCacheInit<C, M, S> {
    #[verifier::type_invariant]
    closed spec fn handles_answer(&self) -> bool {
        all_answer(self.handles@)
    }

    /// The next lookup, or `None` after the last one.
    pub fn next_lookup(&self) -> (r: Option<JniLookup>)
        ensures
            all_answer(self@),
            r == if self@.len() < LOOKUP_COUNT {
                Some(lookups()[self@.len() as int])
            } else {
                None
            },
    {
        proof {
            use_type_invariant(self);
        }
        let i: usize = self.handles.len();
        let lookup = if i == 0 {
            JniLookup::Class { name: "java/lang/Long" }
        } else if i == 1 {
            JniLookup::Method { name: "<init>", signature: "(J)V" }
        } else if i == 2 {
            JniLookup::Class { name: "java/lang/Double" }
        } else if i == 3 {
            JniLookup::Method { name: "<init>", signature: "(D)V" }
        } else if i == 4 {
            JniLookup::Class { name: "java/lang/Boolean" }
        } else if i == 5 {
            JniLookup::Method { name: "<init>", signature: "(Z)V" }
        } else if i == 6 {
            JniLookup::Class { name: "java/lang/Float" }
        } else if i == 7 {
            JniLookup::Method { name: "<init>", signature: "(F)V" }
        } else if i == 8 {
            JniLookup::Class { name: "java/util/ArrayList" }
        } else if i == 9 {
            JniLookup::Method { name: "<init>", signature: "()V" }
        } else if i == 10 {
            JniLookup::Method { name: "add", signature: "(Ljava/lang/Object;)Z" }
        } else if i == 11 {
            JniLookup::Class { name: "java/util/HashMap" }
        } else if i == 12 {
            JniLookup::Method { name: "<init>", signature: "()V" }
        } else if i == 13 {
            JniLookup::Method {
                name: "put",
                signature: "(Ljava/lang/Object;Ljava/lang/Object;)Ljava/lang/Object;",
            }
        } else if i == 14 {
            JniLookup::Class { name: "java/util/Optional" }
        } else if i == 15 {
            JniLookup::StaticMethod {
                name: "ofNullable",
                signature: "(Ljava/lang/Object;)Ljava/util/Optional;",
            }
        } else {
            return None;
        };
        Some(lookup)
    }

    /// The class that the next lookup is made in, if it is not the lookup of a class.
    pub fn current_class(&self) -> (r: Option<&C>)
        ensures
            if self@.len() < LOOKUP_COUNT && lookups()[self@.len() as int] !is Class {
                r matches Some(class) && exists|at: int| #[trigger]
                    is_class_of(at, self@.len() as int) && self@[at]
                        == JniHandle::<C, M, S>::Class(*class)
            } else {
                r is None
            },
    {
        proof {
            use_type_invariant(self);
        }
        let i: usize = self.handles.len();
        let position: usize = if i == 1 {
            0
        } else if i == 3 {
            2
        } else if i == 5 {
            4
        } else if i == 7 {
            6
        } else if i == 9 || i == 10 {
            8
        } else if i == 12 || i == 13 {
            11
        } else if i == 15 {
            14
        } else {
            return None;
        };
        assert(is_class_of(position as int, i as int));
        assert(answers(self@[position as int], lookups()[position as int]));
        match &self.handles[position] {
            JniHandle::Class(class) => Some(class),
            _ => vstd::pervasive::unreached(),
        }
    }

    /// Takes how the next lookup came out. A failure, or a handle of the wrong kind,
    /// ends the filling of the cache.
    pub fn record<E>(self, outcome: JniOutcome<C, M, S, E>) -> (r: Result<Self, JniInitError<E>>)
        ensures
            match r {
                Ok(next) => after_outcome(self@, outcome) == Ok::<_, JniInitError<E>>(next@),
                Err(e) => after_outcome(self@, outcome) == Err::<
                    Seq<JniHandle<C, M, S>>,
                    JniInitError<E>,
                >(e),
            },
    {
        proof {
            use_type_invariant(&self);
        }
        let handle = match outcome {
            JniOutcome::Found(handle) => handle,
            JniOutcome::Failed(e) => {
                return Err(JniInitError::Lookup(e));
            },
        };
        let fits = match (&handle, self.next_lookup()) {
            (JniHandle::Class(_), Some(JniLookup::Class { .. })) => true,
            (JniHandle::Method(_), Some(JniLookup::Method { .. })) => true,
            (JniHandle::StaticMethod(_), Some(JniLookup::StaticMethod { .. })) => true,
            _ => false,
        };
        if !fits {
            return Err(JniInitError::Mismatch);
        }
        let mut handles = self.handles;
        handles.push(handle);
        Ok(JniCacheInit { handles })
    }

    /// The filled cache, once every lookup is done.
    pub fn finish(self) -> (r: Option<JniCache<C, M, S>>)
        ensures
            r == if self@.len() == LOOKUP_COUNT {
                Some(filled(self@))
            } else {
                None
            },
    {
        proof {
            use_type_invariant(&self);
        }
        if self.handles.len() == LOOKUP_COUNT {
            Some(JniCache::from_handles(self.handles))
        } else {
            None
        }
    }
}

/// What comes of recording the outcomes one after the other.
pub open spec fn after_outcomes<C, M, S, E>(
    handles: Seq<JniHandle<C, M, S>>,
    outcomes: Seq<JniOutcome<C, M, S, E>>,
) -> Result<Seq<JniHandle<C, M, S>>, JniInitError<E>>
    decreases outcomes.len(),
{
    if outcomes.len() == 0 {
        Ok(handles)
    } else {
        match after_outcome(handles, outcomes[0]) {
            Ok(next) => after_outcomes(next, outcomes.drop_first()),
            Err(e) => Err(e),
        }
    }
}

/// The outcomes of lookups that found the handles.
pub open spec fn found<C, M, S, E>(handles: Seq<JniHandle<C, M, S>>) -> Seq<
    JniOutcome<C, M, S, E>,
> {
    handles.map_values(|handle: JniHandle<C, M, S>| JniOutcome::Found(handle))
}

proof fn lemma_found_then<C, M, S, E>(
    handles: Seq<JniHandle<C, M, S>>,
    n: int,
    rest: Seq<JniOutcome<C, M, S, E>>,
)
    requires
        all_answer(handles),
        0 <= n <= handles.len(),
    ensures
        after_outcomes(handles.take(n), found::<C, M, S, E>(handles.skip(n)) + rest)
            == after_outcomes(handles, rest),
    decreases handles.len() - n,
{
    let outcomes = found::<C, M, S, E>(handles.skip(n)) + rest;
    if n == handles.len() {
        assert(handles.take(n) =~= handles);
        assert(outcomes =~= rest);
    } else {
        assert(outcomes[0] == JniOutcome::<C, M, S, E>::Found(handles[n]));
        assert(answers(handles[n], lookups()[n]));
        assert(handles.take(n).push(handles[n]) =~= handles.take(n + 1));
        assert(outcomes.drop_first() =~= found::<C, M, S, E>(handles.skip(n + 1)) + rest);
        lemma_found_then(handles, n + 1, rest);
    }
}

/// Lookups that all find what they look for are recorded one after the other; once
/// there are as many as lookups, they fill the cache.
pub proof fn lemma_all_found_fills<C, M, S, E>(handles: Seq<JniHandle<C, M, S>>)
    requires
        all_answer(handles),
    ensures
        after_outcomes(Seq::empty(), found::<C, M, S, E>(handles)) == Ok::<
            Seq<JniHandle<C, M, S>>,
            JniInitError<E>,
        >(handles),
{
    let none = Seq::<JniOutcome<C, M, S, E>>::empty();
    lemma_found_then(handles, 0, none);
    assert(handles.take(0) =~= Seq::empty());
    assert(found::<C, M, S, E>(handles.skip(0)) + none =~= found::<C, M, S, E>(handles));
}

/// The first lookup that fails decides the error, whatever would come after it.
pub proof fn lemma_first_failure_decides<C, M, S, E>(
    handles: Seq<JniHandle<C, M, S>>,
    e: E,
    rest: Seq<JniOutcome<C, M, S, E>>,
)
    requires
        all_answer(handles),
    ensures
        after_outcomes(
            Seq::empty(),
            found::<C, M, S, E>(handles).push(JniOutcome::Failed(e)) + rest,
        ) == Err::<Seq<JniHandle<C, M, S>>, JniInitError<E>>(JniInitError::Lookup(e)),
{
    let failed = seq![JniOutcome::<C, M, S, E>::Failed(e)] + rest;
    lemma_found_then(handles, 0, failed);
    assert(handles.take(0) =~= Seq::empty());
    assert(found::<C, M, S, E>(handles.skip(0)) + failed =~= found::<C, M, S, E>(handles).push(
        JniOutcome::Failed(e),
    ) + rest);
}

/// Each field of the cache holds what was found for it: a class by its name, and a
/// method by its name and its signature in the class that was looked up before it.
pub proof fn lemma_fields_hold_what_was_looked_up<C, M, S>(handles: Seq<JniHandle<C, M, S>>)
    requires
        handles.len() == 16,
        all_answer(handles),
    ensures
        lookups().len() == 16,
        LOOKUP_COUNT == 16,
        lookups()[0] matches JniLookup::Class { name } && name@ == "java/lang/Long"@,
        handles[0] == JniHandle::<C, M, S>::Class(filled(handles).long_class),
        lookups()[1] matches JniLookup::Method { name, signature } && name@ == "<init>"@
            && signature@
            == "(J)V"@,
        is_class_of(0, 1),
        handles[1] == JniHandle::<C, M, S>::Method(filled(handles).long_ctor),
        lookups()[2] matches JniLookup::Class { name } && name@ == "java/lang/Double"@,
        handles[2] == JniHandle::<C, M, S>::Class(filled(handles).double_class),
        lookups()[3] matches JniLookup::Method { name, signature } && name@ == "<init>"@
            && signature@
            == "(D)V"@,
        is_class_of(2, 3),
        handles[3] == JniHandle::<C, M, S>::Method(filled(handles).double_ctor),
        lookups()[4] matches JniLookup::Class { name } && name@ == "java/lang/Boolean"@,
        handles[4] == JniHandle::<C, M, S>::Class(filled(handles).boolean_class),
        lookups()[5] matches JniLookup::Method { name, signature } && name@ == "<init>"@
            && signature@
            == "(Z)V"@,
        is_class_of(4, 5),
        handles[5] == JniHandle::<C, M, S>::Method(filled(handles).boolean_ctor),
        lookups()[6] matches JniLookup::Class { name } && name@ == "java/lang/Float"@,
        handles[6] == JniHandle::<C, M, S>::Class(filled(handles).float_class),
        lookups()[7] matches JniLookup::Method { name, signature } && name@ == "<init>"@
            && signature@
            == "(F)V"@,
        is_class_of(6, 7),
        handles[7] == JniHandle::<C, M, S>::Method(filled(handles).float_ctor),
        lookups()[8] matches JniLookup::Class { name } && name@ == "java/util/ArrayList"@,
        handles[8] == JniHandle::<C, M, S>::Class(filled(handles).array_list_class),
        lookups()[9] matches JniLookup::Method { name, signature } && name@ == "<init>"@
            && signature@
            == "()V"@,
        is_class_of(8, 9),
        handles[9] == JniHandle::<C, M, S>::Method(filled(handles).array_list_ctor),
        lookups()[10] matches JniLookup::Method { name, signature } && name@ == "add"@
            && signature@
            == "(Ljava/lang/Object;)Z"@,
        is_class_of(8, 10),
        handles[10] == JniHandle::<C, M, S>::Method(filled(handles).array_list_add),
        lookups()[11] matches JniLookup::Class { name } && name@ == "java/util/HashMap"@,
        handles[11] == JniHandle::<C, M, S>::Class(filled(handles).hash_map_class),
        lookups()[12] matches JniLookup::Method { name, signature } && name@ == "<init>"@
            && signature@
            == "()V"@,
        is_class_of(11, 12),
        handles[12] == JniHandle::<C, M, S>::Method(filled(handles).hash_map_ctor),
        lookups()[13] matches JniLookup::Method { name, signature } && name@ == "put"@
            && signature@
            == "(Ljava/lang/Object;Ljava/lang/Object;)Ljava/lang/Object;"@,
        is_class_of(11, 13),
        handles[13] == JniHandle::<C, M, S>::Method(filled(handles).hash_map_put),
        lookups()[14] matches JniLookup::Class { name } && name@ == "java/util/Optional"@,
        handles[14] == JniHandle::<C, M, S>::Class(filled(handles).optional_class),
        lookups()[15] matches JniLookup::StaticMethod { name, signature } && name@ == "ofNullable"@
            && signature@
            == "(Ljava/lang/Object;)Ljava/util/Optional;"@,
        is_class_of(14, 15),
        handles[15] == JniHandle::<C, M, S>::StaticMethod(filled(handles).optional_of_nullable),
{
    assert(forall|i: int| 0 <= i < 16 ==> answers(#[trigger] handles[i], lookups()[i]));
    assert(answers(handles[0], lookups()[0]));
    assert(answers(handles[1], lookups()[1]));
    assert(answers(handles[2], lookups()[2]));
    assert(answers(handles[3], lookups()[3]));
    assert(answers(handles[4], lookups()[4]));
    assert(answers(handles[5], lookups()[5]));
    assert(answers(handles[6], lookups()[6]));
    assert(answers(handles[7], lookups()[7]));
    assert(answers(handles[8], lookups()[8]));
    assert(answers(handles[9], lookups()[9]));
    assert(answers(handles[10], lookups()[10]));
    assert(answers(handles[11], lookups()[11]));
    assert(answers(handles[12], lookups()[12]));
    assert(answers(handles[13], lookups()[13]));
    assert(answers(handles[14], lookups()[14]));
    assert(answers(handles[15], lookups()[15]));
}

/// A method is looked up in one class: the last one that was looked up before.
pub proof fn lemma_class_of_a_method(at: int, other: int, i: int)
    requires
        is_class_of(at, i),
        is_class_of(other, i),
    ensures
        at == other,
        0 <= at < i,
        lookups()[at] is Class,
        forall|j: int| at < j < i ==> lookups()[j] !is Class,
{
}

/// A lookup is answered by a handle of its own kind and by no other.
pub proof fn lemma_answers<C, M, S>(handle: JniHandle<C, M, S>, lookup: JniLookup)
    ensures
        handle is Class && lookup is Class ==> answers(handle, lookup),
        handle is Method && lookup is Method ==> answers(handle, lookup),
        handle is StaticMethod && lookup is StaticMethod ==> answers(handle, lookup),
        answers(handle, lookup) ==> (handle is Class <==> lookup is Class),
        answers(handle, lookup) ==> (handle is Method <==> lookup is Method),
        answers(handle, lookup) ==> (handle is StaticMethod <==> lookup is StaticMethod),
{
}

/// A handle that answers the next lookup is kept behind those before it. A failure is
/// told as it is, and anything else is a mismatch.
pub proof fn lemma_outcomes<C, M, S, E>(
    handles: Seq<JniHandle<C, M, S>>,
    handle: JniHandle<C, M, S>,
    e: E,
)
    ensures
        after_outcome(handles, JniOutcome::<C, M, S, E>::Failed(e)) == Err::<
            Seq<JniHandle<C, M, S>>,
            JniInitError<E>,
        >(JniInitError::Lookup(e)),
        handles.len() < 16 && answers(handle, lookups()[handles.len() as int]) ==> after_outcome(
            handles,
            JniOutcome::<C, M, S, E>::Found(handle),
        ) == Ok::<Seq<JniHandle<C, M, S>>, JniInitError<E>>(handles.push(handle)),
        handles.len() >= 16 || !answers(handle, lookups()[handles.len() as int]) ==> after_outcome(
            handles,
            JniOutcome::<C, M, S, E>::Found(handle),
        ) == Err::<Seq<JniHandle<C, M, S>>, JniInitError<E>>(JniInitError::Mismatch),
{
}

} // verus!
