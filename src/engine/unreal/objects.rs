use vstd::prelude::*;
use crate::engine::error::{EngineError, ErrorKind, error_with};
use crate::engine::types::{ClassHandle, ClassInfo};
use crate::memory::MemoryImage;
use super::structures::{
    FUObjectArray, UObject, UStruct, fname_text, object_array_of, objects_upto, probe_from,
    read_fname, uobject_at,
};
use super::UnrealEngine;

verus! {

/// The outcome of a lookup by name.
#[derive(Clone, Copy, Debug, PartialEq, Eq, Structural)]
pub enum Lookup {
    Found(usize),
    NotFound,
    Unreadable,
}

/// The name of the object at `addr`: its name id looked up in the pool.
pub open spec fn object_name(img: MemoryImage, gnames: usize, addr: usize) -> Option<Seq<char>> {
    match uobject_at(img, addr as int) {
        None => None,
        Some(o) => fname_text(img, gnames, o.name.comparison_index),
    }
}

/// The live objects of the global object array at `gobjects`.
pub open spec fn all_objects(img: MemoryImage, gobjects: usize) -> Option<Seq<usize>> {
    match img.spec_read(gobjects as int, 48) {
        None => None,
        Some(b) => {
            let arr = object_array_of(b).obj_objects;
            Some(objects_upto(img, arr, arr.num_elements as int))
        },
    }
}

/// Whether following class pointers from `current` reaches a node that is
/// its own class within `fuel` more reads, stopping at an unreadable node or
/// at a pointer already in `visited`.
pub open spec fn class_walk(img: MemoryImage, current: usize, visited: Seq<usize>, fuel: nat) -> bool
    decreases fuel,
{
    if fuel == 0 {
        false
    } else {
        match uobject_at(img, current as int) {
            None => false,
            Some(o) => if o.class == current {
                true
            } else if visited.contains(o.class) {
                false
            } else {
                class_walk(img, o.class, visited.push(o.class), (fuel - 1) as nat)
            },
        }
    }
}

/// Number of class-pointer hops the class check follows.
pub const CLASS_WALK_HOPS: usize = 3;

/// Whether the object at `addr` is a class: it reads, its class pointer is
/// not null, and following class pointers reaches a self-referential node
/// within three hops.
pub open spec fn is_class(img: MemoryImage, addr: usize) -> bool {
    match uobject_at(img, addr as int) {
        None => false,
        Some(o) => o.class != 0 && class_walk(img, o.class, seq![o.class], CLASS_WALK_HOPS as nat),
    }
}

/// The node reached from `c` after `k` class-pointer hops.
pub open spec fn class_chain(img: MemoryImage, c: usize, k: nat) -> Option<usize>
    decreases k,
{
    if k == 0 {
        Some(c)
    } else {
        match class_chain(img, c, (k - 1) as nat) {
            None => None,
            Some(p) => match uobject_at(img, p as int) {
                None => None,
                Some(o) => Some(o.class),
            },
        }
    }
}

/// The node `p` is its own class.
pub open spec fn self_referential(img: MemoryImage, p: usize) -> bool {
    match uobject_at(img, p as int) {
        Some(o) => o.class == p,
        None => false,
    }
}

proof fn lemma_chain_step(img: MemoryImage, c: usize, k: nat, o: UObject)
    requires
        uobject_at(img, c as int) == Some(o),
    ensures
        class_chain(img, o.class, k) == class_chain(img, c, k + 1),
    decreases k,
{
    if k > 0 {
        lemma_chain_step(img, c, (k - 1) as nat, o);
    } else {
        assert(class_chain(img, c, 0) == Some(c));
        assert(class_chain(img, o.class, 0) == Some(o.class));
        assert(class_chain(img, c, 1) == Some(o.class));
    }
}

proof fn lemma_walk_bounded(img: MemoryImage, current: usize, visited: Seq<usize>, fuel: nat)
    requires
        class_walk(img, current, visited, fuel),
    ensures
        exists|k: nat|
            k < fuel && #[trigger] class_chain(img, current, k) is Some && self_referential(
                img,
                class_chain(img, current, k)->0,
            ),
    decreases fuel,
{
    let o = uobject_at(img, current as int)->0;
    if o.class == current {
        assert(class_chain(img, current, 0) == Some(current));
    } else {
        lemma_walk_bounded(img, o.class, visited.push(o.class), (fuel - 1) as nat);
        let k = choose|k: nat|
            k < fuel - 1 && #[trigger] class_chain(img, o.class, k) is Some && self_referential(
                img,
                class_chain(img, o.class, k)->0,
            );
        lemma_chain_step(img, current, k, o);
        assert(class_chain(img, current, k + 1) is Some);
    }
}

/// The class check stops after at most three hops, and reports a class only
/// when one of the first three nodes on the class-pointer chain is its own
/// class.
pub proof fn lemma_class_walk_terminates(img: MemoryImage, addr: usize)
    ensures
        is_class(img, addr) ==> exists|k: nat|
            k < CLASS_WALK_HOPS && #[trigger] class_chain(
                img,
                uobject_at(img, addr as int)->0.class,
                k,
            ) is Some && self_referential(
                img,
                class_chain(img, uobject_at(img, addr as int)->0.class, k)->0,
            ),
{
    if is_class(img, addr) {
        let o = uobject_at(img, addr as int)->0;
        lemma_walk_bounded(img, o.class, seq![o.class], CLASS_WALK_HOPS as nat);
    }
}

/// The class check is exact: an object is a class exactly when it reads,
/// its class pointer is not null, and one of the first three nodes on its
/// class-pointer chain reads and is its own class. The visited set only
/// stops walks that would never reach such a node.
pub proof fn lemma_class_walk_exact(img: MemoryImage, addr: usize)
    ensures
        is_class(img, addr) == (uobject_at(img, addr as int) is Some && uobject_at(
            img,
            addr as int,
        )->0.class != 0 && exists|k: nat|
            k < CLASS_WALK_HOPS && #[trigger] class_chain(
                img,
                uobject_at(img, addr as int)->0.class,
                k,
            ) is Some && self_referential(
                img,
                class_chain(img, uobject_at(img, addr as int)->0.class, k)->0,
            )),
{
    lemma_class_walk_terminates(img, addr);
    if uobject_at(img, addr as int) is Some {
        let c0 = uobject_at(img, addr as int)->0.class;
        if c0 != 0 && exists|k: nat|
            k < CLASS_WALK_HOPS && #[trigger] class_chain(img, c0, k) is Some && self_referential(
                img,
                class_chain(img, c0, k)->0,
            ) {
            let k = choose|k: nat|
                k < CLASS_WALK_HOPS && #[trigger] class_chain(img, c0, k) is Some
                    && self_referential(img, class_chain(img, c0, k)->0);
            reveal_with_fuel(class_walk, 4);
            reveal_with_fuel(class_chain, 3);
            assert(class_chain(img, c0, 0) == Some(c0));
            if !self_referential(img, c0) {
                let o0 = uobject_at(img, c0 as int)->0;
                let c1 = o0.class;
                assert(k >= 1);
                assert(class_chain(img, c0, 1) == Some(c1));
                assert(c1 != c0);
                assert(!seq![c0].contains(c1)) by {
                    if seq![c0].contains(c1) {
                        let i = choose|i: int| 0 <= i < seq![c0].len() && seq![c0][i] == c1;
                        assert(seq![c0][i] == c0);
                    }
                }
                if !self_referential(img, c1) {
                    assert(k == 2);
                    let o1 = uobject_at(img, c1 as int)->0;
                    let c2 = o1.class;
                    assert(class_chain(img, c0, 2) == Some(c2));
                    let v = seq![c0].push(c1);
                    assert(c2 != c1);
                    assert(c2 != c0);
                    assert(!v.contains(c2)) by {
                        if v.contains(c2) {
                            let i = choose|i: int| 0 <= i < v.len() && v[i] == c2;
                            assert(v[0] == c0 && v[1] == c1);
                        }
                    }
                }
            }
        }
    }
}

/// The description of the class at `addr`: its name, its parent (none when
/// the super-struct pointer is null) and its size.
pub open spec fn class_info_of(img: MemoryImage, gnames: usize, addr: usize) -> Option<(Seq<char>, Option<usize>, usize)> {
    match object_name(img, gnames, addr) {
        None => None,
        Some(name) => match probe_from(img, addr as int, 0) {
            None => None,
            Some(u) => Some(
                (
                    name,
                    if u.super_struct != 0 {
                        Some(u.super_struct)
                    } else {
                        None
                    },
                    u.properties_size as usize,
                ),
            ),
        },
    }
}

/// `info` describes the class at `addr` as `class_info_of` does.
pub open spec fn info_matches(info: ClassInfo, img: MemoryImage, gnames: usize, addr: usize) -> bool {
    match class_info_of(img, gnames, addr) {
        None => false,
        Some((name, parent, size)) => {
            &&& info.name@ == name
            &&& info.handle == ClassHandle(addr)
            &&& info.parent == match parent {
                Some(p) => Some(ClassHandle(p)),
                None => None::<ClassHandle>,
            }
            &&& info.size == size
        },
    }
}

/// The classes among `objs` whose description can be read, in order.
pub open spec fn classes_in(img: MemoryImage, gnames: usize, objs: Seq<usize>) -> Seq<usize>
    decreases objs.len(),
{
    if objs.len() == 0 {
        Seq::empty()
    } else {
        let a = objs.last();
        classes_in(img, gnames, objs.drop_last()) + if is_class(img, a) && class_info_of(
            img,
            gnames,
            a,
        ) is Some {
            seq![a]
        } else {
            Seq::empty()
        }
    }
}

/// The first object among `objs` from `k` on that is named `name`: found
/// when its class is its own class's class, a read failure when that class
/// cannot be read.
pub open spec fn class_lookup(img: MemoryImage, gnames: usize, objs: Seq<usize>, name: Seq<char>, k: int) -> Lookup
    decreases objs.len() - k,
{
    if k < 0 || k >= objs.len() {
        Lookup::NotFound
    } else {
        let a = objs[k];
        if object_name(img, gnames, a) == Some(name) {
            let o = uobject_at(img, a as int)->0;
            if o.class != 0 {
                match uobject_at(img, o.class as int) {
                    None => Lookup::Unreadable,
                    Some(c) => if c.class == o.class {
                        Lookup::Found(a)
                    } else {
                        class_lookup(img, gnames, objs, name, k + 1)
                    },
                }
            } else {
                class_lookup(img, gnames, objs, name, k + 1)
            }
        } else {
            class_lookup(img, gnames, objs, name, k + 1)
        }
    }
}

/// What `UnrealEngine::find_class` guarantees.
pub open spec fn find_class_post(e: UnrealEngine, name: Seq<char>, r: Result<ClassHandle, EngineError>) -> bool {
    &&& !e.initialized ==> r is Err && r->Err_0.spec_kind() == ErrorKind::NotInitialized
    &&& e.initialized && all_objects(e.process.memory, e.gobjects) is None ==> r is Err
    &&& e.initialized && all_objects(e.process.memory, e.gobjects) is Some ==> {
                    let l = class_lookup(
                        e.process.memory,
                        e.gnames,
                        all_objects(e.process.memory, e.gobjects)->0,
                        name,
                        0,
                    );
                    &&& (r is Ok <==> l is Found)
                    &&& l is Found ==> r == Ok::<ClassHandle, EngineError>(ClassHandle(l->Found_0))
                    &&& l is NotFound ==> r->Err_0.spec_kind() == ErrorKind::ClassNotFound
                    &&& l is Unreadable ==> r->Err_0.spec_kind() == ErrorKind::MemoryError
                }
}

/// What `UnrealEngine::enumerate_classes` guarantees.
pub open spec fn enumerate_classes_post(e: UnrealEngine, r: Result<Vec<ClassInfo>, EngineError>) -> bool {
    &&& !e.initialized ==> r is Err && r->Err_0.spec_kind() == ErrorKind::NotInitialized
    &&& e.initialized ==> (r is Ok <==> all_objects(e.process.memory, e.gobjects) is Some)
    &&& r is Ok ==> {
                    let cs = classes_in(
                        e.process.memory,
                        e.gnames,
                        all_objects(e.process.memory, e.gobjects)->0,
                    );
                    &&& r->Ok_0@.len() == cs.len()
                    &&& forall|k: int|
                        0 <= k < cs.len() ==> info_matches(
                            #[trigger] r->Ok_0@[k],
                            e.process.memory,
                            e.gnames,
                            cs[k],
                        )
                }
}

/// What `UnrealEngine::get_class_info` guarantees.
pub open spec fn get_class_info_post(e: UnrealEngine, class_addr: usize, r: Result<ClassInfo, EngineError>) -> bool {
    &&& !e.initialized ==> r is Err && r->Err_0.spec_kind() == ErrorKind::NotInitialized
    &&& e.initialized ==> (r is Ok <==> class_info_of(e.process.memory, e.gnames, class_addr) is Some)
    &&& r is Ok ==> info_matches(r->Ok_0, e.process.memory, e.gnames, class_addr)
    &&& e.initialized && r is Err ==> r->Err_0.spec_kind() == ErrorKind::MemoryError
}

impl UnrealEngine {
    /// The text of the name with id `index`.
    pub fn get_fname(&self, index: u32) -> (r: Result<String, EngineError>)
        ensures
            !self.initialized ==> r is Err && r->Err_0.spec_kind() == ErrorKind::NotInitialized,
            self.initialized ==> (r is Ok <==> fname_text(self.process.memory, self.gnames, index) is Some),
            r is Ok ==> r->Ok_0@ == fname_text(self.process.memory, self.gnames, index)->0,
            self.initialized && r is Err ==> r->Err_0.spec_kind() == ErrorKind::MemoryError,
    {
        if !self.initialized {
            return Err(EngineError::NotInitialized);
        }
        match read_fname(&self.process.memory, self.gnames, index) {
            Ok(s) => Ok(s),
            Err(_) => Err(error_with(ErrorKind::MemoryError, "name entry unreadable")),
        }
    }

    /// The name of the object at `obj_addr`.
    pub fn get_object_name(&self, obj_addr: usize) -> (r: Result<String, EngineError>)
        ensures
            !self.initialized ==> r is Err && r->Err_0.spec_kind() == ErrorKind::NotInitialized,
            self.initialized ==> (r is Ok <==> object_name(self.process.memory, self.gnames, obj_addr) is Some),
            r is Ok ==> r->Ok_0@ == object_name(self.process.memory, self.gnames, obj_addr)->0,
            self.initialized && r is Err ==> r->Err_0.spec_kind() == ErrorKind::MemoryError,
    {
        if !self.initialized {
            return Err(EngineError::NotInitialized);
        }
        let obj = match UObject::read(&self.process.memory, obj_addr) {
            Ok(o) => o,
            Err(_) => {
                return Err(error_with(ErrorKind::MemoryError, "object unreadable"));
            },
        };
        self.get_fname(obj.name.comparison_index)
    }

    /// The live objects of the global object array.
    pub fn get_all_objects(&self) -> (r: Result<Vec<usize>, EngineError>)
        ensures
            !self.initialized ==> r is Err && r->Err_0.spec_kind() == ErrorKind::NotInitialized,
            self.initialized ==> (r is Ok <==> all_objects(self.process.memory, self.gobjects) is Some),
            r is Ok ==> r->Ok_0@ == all_objects(self.process.memory, self.gobjects)->0,
    {
        if !self.initialized {
            return Err(EngineError::NotInitialized);
        }
        let array = match FUObjectArray::read(&self.process.memory, self.gobjects) {
            Ok(a) => a,
            Err(_) => {
                return Err(error_with(ErrorKind::MemoryError, "object array unreadable"));
            },
        };
        Ok(array.get_all_objects(&self.process.memory))
    }

    /// Whether the object at `obj_addr` is a class.
    pub fn is_class_object(&self, obj_addr: usize) -> (r: bool)
        ensures
            r == is_class(self.process.memory, obj_addr),
    {
        let ghost img = self.process.memory;
        let obj = match UObject::read(&self.process.memory, obj_addr) {
            Ok(o) => o,
            Err(_) => {
                return false;
            },
        };
        if obj.class == 0 {
            return false;
        }
        let mut current = obj.class;
        let mut visited: Vec<usize> = vec![current];
        let mut hop: usize = 0;
        proof {
            assert(visited@ =~= seq![obj.class]);
        }
        while hop < CLASS_WALK_HOPS
            invariant
                hop <= CLASS_WALK_HOPS,
                img == self.process.memory,
                uobject_at(img, obj_addr as int) == Some(obj),
                obj.class != 0,
                class_walk(img, obj.class, seq![obj.class], CLASS_WALK_HOPS as nat) == class_walk(
                    img,
                    current,
                    visited@,
                    (CLASS_WALK_HOPS - hop) as nat,
                ),
            decreases CLASS_WALK_HOPS - hop,
        {
            let current_obj = match UObject::read(&self.process.memory, current) {
                Ok(o) => o,
                Err(_) => {
                    return false;
                },
            };
            if current_obj.class == current {
                return true;
            }
            let mut seen = false;
            let mut j: usize = 0;
            while j < visited.len()
                invariant
                    j <= visited@.len(),
                    seen == exists|t: int| 0 <= t < j && visited@[t] == current_obj.class,
                decreases visited@.len() - j,
            {
                if visited[j] == current_obj.class {
                    seen = true;
                }
                j = j + 1;
            }
            if seen {
                proof {
                    let t = choose|t: int| 0 <= t < visited@.len() && visited@[t] == current_obj.class;
                    assert(visited@.contains(current_obj.class));
                }
                return false;
            }
            proof {
                assert(!visited@.contains(current_obj.class));
            }
            visited.push(current_obj.class);
            current = current_obj.class;
            hop = hop + 1;
        }
        false
    }

    /// The description of the class at `class_addr`.
    pub fn get_class_info(&self, class_addr: usize) -> (r: Result<ClassInfo, EngineError>)
        requires
            self.process.memory.wf(),
        ensures
            get_class_info_post(*self, class_addr, r),

    {
        let name = self.get_object_name(class_addr)?;
        let ustruct = match UStruct::read(&self.process.memory, class_addr) {
            Ok(u) => u,
            Err(_) => {
                return Err(error_with(ErrorKind::MemoryError, "UStruct read failed"));
            },
        };
        Ok(
            ClassInfo {
                name,
                handle: ClassHandle(class_addr),
                parent: if ustruct.super_struct != 0 {
                    Some(ClassHandle(ustruct.super_struct))
                } else {
                    None
                },
                size: ustruct.properties_size as usize,
            },
        )
    }

    /// Every class among the live objects, with its description.
    pub fn enumerate_classes(&self) -> (r: Result<Vec<ClassInfo>, EngineError>)
        requires
            self.process.memory.wf(),
        ensures
            enumerate_classes_post(*self, r),

    {
        let all = self.get_all_objects()?;
        let ghost img = self.process.memory;
        let mut classes: Vec<ClassInfo> = Vec::new();
        let mut i: usize = 0;
        while i < all.len()
            invariant
                i <= all@.len(),
                img == self.process.memory,
                img.wf(),
                self.initialized,
                classes@.len() == classes_in(img, self.gnames, all@.subrange(0, i as int)).len(),
                forall|k: int|
                    0 <= k < classes@.len() ==> info_matches(
                        #[trigger] classes@[k],
                        img,
                        self.gnames,
                        classes_in(img, self.gnames, all@.subrange(0, i as int))[k],
                    ),
            decreases all@.len() - i,
        {
            let a = all[i];
            let ghost before = classes_in(img, self.gnames, all@.subrange(0, i as int));
            proof {
                let s = all@.subrange(0, i + 1);
                assert(s.drop_last() =~= all@.subrange(0, i as int));
                assert(s.last() == a);
            }
            if self.is_class_object(a) {
                match self.get_class_info(a) {
                    Ok(info) => {
                        classes.push(info);
                        proof {
                            let after = classes_in(img, self.gnames, all@.subrange(0, i + 1));
                            assert(after == before + seq![a]);
                            assert forall|k: int| 0 <= k < classes@.len() implies info_matches(
                                #[trigger] classes@[k],
                                img,
                                self.gnames,
                                after[k],
                            ) by {
                                if k < before.len() {
                                    assert(after[k] == before[k]);
                                }
                            }
                        }
                    },
                    Err(_) => {
                        proof {
                            assert(classes_in(img, self.gnames, all@.subrange(0, i + 1)) =~= before);
                        }
                    },
                }
            } else {
                proof {
                    assert(classes_in(img, self.gnames, all@.subrange(0, i + 1)) =~= before);
                }
            }
            i = i + 1;
        }
        proof {
            assert(all@.subrange(0, all@.len() as int) =~= all@);
        }
        Ok(classes)
    }

    /// The first live object named `name` whose class is a class object
    /// (its class pointer's target is its own class).
    pub fn find_class(&self, name: &str) -> (r: Result<ClassHandle, EngineError>)
        ensures
            find_class_post(*self, name@, r),

    {
        let all = self.get_all_objects()?;
        let target = name.to_owned();
        let ghost img = self.process.memory;
        let ghost objs = all@;
        let mut i: usize = 0;
        while i < all.len()
            invariant
                i <= objs.len(),
                objs == all@,
                target@ == name@,
                img == self.process.memory,
                self.initialized,
                all_objects(img, self.gobjects) == Some(objs),
                class_lookup(img, self.gnames, objs, name@, 0) == class_lookup(
                    img,
                    self.gnames,
                    objs,
                    name@,
                    i as int,
                ),
            decreases objs.len() - i,
        {
            let obj_addr = all[i];
            if let Ok(obj_name) = self.get_object_name(obj_addr) {
                if obj_name == target {
                    let obj = match UObject::read(&self.process.memory, obj_addr) {
                        Ok(o) => o,
                        Err(_) => {
                            return Err(error_with(ErrorKind::MemoryError, "object unreadable"));
                        },
                    };
                    if obj.class != 0 {
                        let class_obj = match UObject::read(&self.process.memory, obj.class) {
                            Ok(o) => o,
                            Err(_) => {
                                return Err(error_with(ErrorKind::MemoryError, "class unreadable"));
                            },
                        };
                        if class_obj.class == obj.class {
                            return Ok(ClassHandle(obj_addr));
                        }
                    }
                }
            }
            i = i + 1;
        }
        Err(error_with(ErrorKind::ClassNotFound, name))
    }
}

} // verus!
