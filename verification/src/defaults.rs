//! Named default assets, registered once by plugins and looked up by key.
use std::any::TypeId;
use vstd::prelude::*;
use crate::handle::{Asset, GenericHandle, Handle, WeakGenericHandle, WeakHandle};
use crate::typeid::{same_type, type_id_of};
use vstd::string::StringExecFns;

verus! {

/// The text `{:?}` gives for a type identifier.
pub uninterp spec fn type_id_text(type_id: TypeId) -> Seq<char>;

/// Calls `<TypeId as Debug>::fmt` (by `format!("{:?}")`). Claims the text is
/// [`type_id_text`] of the identifier.
#[verifier::external_body]
fn type_id_debug(type_id: TypeId) -> (r: String)
    ensures
        r@ == type_id_text(type_id),
{
    format!("{:?}", type_id)
}

/// The key of a default asset: `Type_`, the `Debug` text of the family's type identifier, `:`,
/// and the name.
pub fn default_key_text(type_id: TypeId, name: &str) -> (r: String)
    ensures
        r@ == "Type_"@ + type_id_text(type_id) + ":"@ + name@,
{
    proof {
        reveal_strlit("Type_");
        reveal_strlit(":");
    }
    let id_text = type_id_debug(type_id);
    let mut key = "Type_".to_owned();
    key.append(id_text.as_str());
    key.append(":");
    key.append(name);
    key
}

/// Whether `k` is the key text of a key named `name`: `Type_`, the `Debug` text of some type
/// identifier (that of the key's type), `:`, and the name.
pub open spec fn is_key_text(k: Seq<char>, name: Seq<char>) -> bool {
    exists|t: TypeId| k == "Type_"@ + type_id_text(t) + ":"@ + name
}

/// Whether `assets` registers a handle under `k` whose type identity is `type_id`.
pub open spec fn holds_type(assets: Map<Seq<char>, WeakGenericHandle>, k: Seq<char>, type_id: TypeId) -> bool {
    assets.contains_key(k) && assets[k].type_id == type_id
}

/// Reported when a default asset is registered under a key that is already taken.
#[derive(Debug)]
pub struct DuplicatedDefaultAssetError {
    pub asset_name: &'static str,
    pub key_name: String,
}

/// A key under which a default asset is registered: a family of keys (the implementing type)
/// and a name within it.
pub trait DefaultAssetsKey: 'static {
    /// The key's name within its family.
    spec fn name(&self) -> Seq<char>;

    fn as_str(&self) -> (r: &'static str)
        ensures
            r@ == self.name(),
    ;

    /// The text the key is stored under: `Type_{TypeId of Self:?}:{as_str}`.
    fn key(&self) -> (r: String)
        ensures
            exists|t: TypeId| r@ == "Type_"@ + type_id_text(t) + ":"@ + self.name(),
    {
        let type_id = type_id_of::<Self>();
        let r = default_key_text(type_id, self.as_str());
        assert(r@ == "Type_"@ + type_id_text(type_id) + ":"@ + self.name());
        r
    }
}

/// The default assets that the core plugin registers.
pub enum CoreDefaultAssets {
    WhiteTexture,
}

impl DefaultAssetsKey for CoreDefaultAssets {
    open spec fn name(&self) -> Seq<char> {
        match *self {
            CoreDefaultAssets::WhiteTexture => "WhiteTexture"@,
        }
    }

    fn as_str(&self) -> (r: &'static str) {
        proof {
            reveal_strlit("WhiteTexture");
        }
        match self {
            CoreDefaultAssets::WhiteTexture => "WhiteTexture",
        }
    }
}

/// After registering `handle` under `key` (by [`DefaultAssets::insert_keyed`] or
/// [`DefaultAssets::insert`]), a lookup of `key` finds that handle, and every other key is found
/// or not found as before, with the same handle.
pub proof fn lemma_registered_is_found(
    before: Map<Seq<char>, WeakGenericHandle>,
    after: Map<Seq<char>, WeakGenericHandle>,
    key: Seq<char>,
    handle: WeakGenericHandle,
)
    requires
        after == before.insert(key, handle),
    ensures
        after.contains_key(key),
        after[key] == handle,
        forall|k: Seq<char>|
            k != key ==> (#[trigger] after.contains_key(k) == before.contains_key(k)) && (
            before.contains_key(k) ==> after[k] == before[k]),
{
}

/// Handles to default assets, by key text.
pub struct DefaultAssets {
    assets: Vec<(String, GenericHandle)>,
}

impl View for DefaultAssets {
    type V = Map<Seq<char>, WeakGenericHandle>;

    closed spec fn view(&self) -> Map<Seq<char>, WeakGenericHandle> {
        Map::new(
            |k: Seq<char>| exists|i: int| 0 <= i < self.assets@.len() && self.assets@[i].0@ == k,
            |k: Seq<char>|
                self.assets@[choose|i: int| 0 <= i < self.assets@.len() && self.assets@[i].0@ == k].1@,
        )
    }
}

impl DefaultAssets {
    /// No two entries share a key.
    pub closed spec fn wf(&self) -> bool {
        forall|i: int, j: int|
            0 <= i < j < self.assets@.len() ==> self.assets@[i].0@ != self.assets@[j].0@
    }

    /// The entry for `k` is the one at position `i`.
    proof fn lemma_entry(&self, i: int)
        requires
            self.wf(),
            0 <= i < self.assets@.len(),
        ensures
            self@.contains_key(self.assets@[i].0@),
            self@[self.assets@[i].0@] == self.assets@[i].1@,
    {
        let k = self.assets@[i].0@;
        assert(exists|j: int| 0 <= j < self.assets@.len() && self.assets@[j].0@ == k);
        let j = choose|j: int| 0 <= j < self.assets@.len() && self.assets@[j].0@ == k;
        assert(i == j);
    }

    /// No default assets.
    pub fn new() -> (r: Self)
        ensures
            r.wf(),
            r@ == Map::<Seq<char>, WeakGenericHandle>::empty(),
    {
        let r = DefaultAssets { assets: Vec::new() };
        assert(r@ =~= Map::<Seq<char>, WeakGenericHandle>::empty());
        r
    }

    /// Registers `handle` under the key text `key_name`, replacing what was there. Returns
    /// whether the key was already taken.
    pub fn insert_keyed(&mut self, key_name: String, handle: GenericHandle) -> (r: bool)
        requires
            old(self).wf(),
        ensures
            final(self).wf(),
            r == old(self)@.contains_key(key_name@),
            final(self)@ == old(self)@.insert(key_name@, handle@),
    {
        let ghost before = self.assets@;
        let ghost k = key_name@;
        let n = self.assets.len();
        let mut i: usize = 0;
        while i < n
            invariant
                self.wf(),
                key_name@ == k,
                self.assets@ == before,
                old(self).assets@ == before,
                n == before.len(),
                i <= n,
                forall|j: int| 0 <= j < i ==> before[j].0@ != k,
            decreases n - i,
        {
            let same = self.assets[i].0.eq(&key_name);
            assert(same == (self.assets@[i as int].0@ == key_name@));
            assert(key_name@ == k);
            assert(self.assets@[i as int] == before[i as int]);
            if same {
                let ghost old_view = self@;
                let ghost snapshot = *self;
                proof {
                    self.lemma_entry(i as int);
                }
                self.assets.set(i, (key_name, handle));
                proof {
                    assert forall|a: int, b: int|
                        0 <= a < b < self.assets@.len() implies self.assets@[a].0@
                        != self.assets@[b].0@ by {
                        assert(before[a].0@ != before[b].0@);
                    }
                    assert forall|key: Seq<char>| #[trigger] self@.contains_key(key) == old_view.insert(k, handle@).contains_key(key) by {
                        if old_view.contains_key(key) {
                            let j = choose|j: int| 0 <= j < before.len() && before[j].0@ == key;
                            assert(self.assets@[j].0@ == key);
                        }
                        if self@.contains_key(key) {
                            let j = choose|j: int| 0 <= j < self.assets@.len() && self.assets@[j].0@ == key;
                            assert(before[j].0@ == key);
                        }
                    }
                    assert forall|key: Seq<char>| #[trigger] self@.contains_key(key) implies self@[key] == old_view.insert(k, handle@)[key] by {
                        let j = choose|j: int| 0 <= j < self.assets@.len() && self.assets@[j].0@ == key;
                        self.lemma_entry(j);
                        if key != k {
                            snapshot.lemma_entry(j);
                        }
                    }
                    assert(self@ =~= old_view.insert(k, handle@));
                }
                return true;
            }
            i = i + 1;
        }
        let ghost old_view = self@;
        assert(!old_view.contains_key(k));
        self.assets.push((key_name, handle));
        proof {
            let last = self.assets@.len() - 1;
            assert forall|key: Seq<char>| #[trigger] self@.contains_key(key) == old_view.insert(k, handle@).contains_key(key) by {
                if old_view.contains_key(key) {
                    let j = choose|j: int| 0 <= j < before.len() && before[j].0@ == key;
                    assert(self.assets@[j].0@ == key);
                }
                if key == k {
                    assert(self.assets@[last].0@ == key);
                }
                if self@.contains_key(key) {
                    let j = choose|j: int| 0 <= j < self.assets@.len() && self.assets@[j].0@ == key;
                    if j < last {
                        assert(before[j].0@ == key);
                    }
                }
            }
            assert forall|key: Seq<char>| #[trigger] self@.contains_key(key) implies self@[key] == old_view.insert(k, handle@)[key] by {
                let j = choose|j: int| 0 <= j < self.assets@.len() && self.assets@[j].0@ == key;
                self.lemma_entry(j);
                if j < last {
                    old(self).lemma_entry(j);
                }
            }
            assert(self@ =~= old_view.insert(k, handle@));
        }
        false
    }

    /// Registers `handle` under `key`, replacing what was there, and reports an error when the key
    /// was already taken. The error names the asset type (`asset_name`) and the key as
    /// `{key_type_name}:{key.as_str()}`; the caller supplies both type names.
    pub fn insert<A: Asset, K: DefaultAssetsKey>(
        &mut self,
        key: K,
        handle: Handle<A>,
        asset_name: &'static str,
        key_type_name: &'static str,
    ) -> (r: Result<(), DuplicatedDefaultAssetError>)
        requires
            old(self).wf(),
        ensures
            final(self).wf(),
            exists|k: Seq<char>|
                {
                    &&& #[trigger] final(self)@.contains_key(k)
                    &&& (final(self)@[k].index, final(self)@[k].generation) == handle@
                    &&& final(self)@.remove(k) == old(self)@.remove(k)
                    &&& (r is Ok <==> !old(self)@.contains_key(k))
                    &&& exists|t: TypeId| k == "Type_"@ + type_id_text(t) + ":"@ + key.name()
                },
            r matches Err(e) ==> {
                &&& e.asset_name == asset_name
                &&& e.key_name@ == key_type_name@ + ":"@ + key.name()
            },
    {
        let key_name = key.key();
        let ghost k = key_name@;
        let ghost hv = handle@;
        let generic = handle.into_generic();
        let ghost gv = generic@;
        let taken = self.insert_keyed(key_name, generic);
        proof {
            assert(self@.contains_key(k));
            assert(self@.remove(k) =~= old(self)@.remove(k));
        }
        if taken {
            let separator = ":";
            proof {
                reveal_strlit(":");
            }
            let label = String::from_str(key_type_name).concat(separator).concat(key.as_str());
            Err(DuplicatedDefaultAssetError { asset_name, key_name: label })
        } else {
            Ok(())
        }
    }

    /// The handle registered under the key text `key_name`, if any.
    pub fn get_keyed(&self, key_name: &String) -> (r: Option<&GenericHandle>)
        requires
            self.wf(),
        ensures
            r is Some <==> self@.contains_key(key_name@),
            r matches Some(g) ==> g@ == self@[key_name@],
    {
        let n = self.assets.len();
        let mut i: usize = 0;
        while i < n
            invariant
                self.wf(),
                n == self.assets@.len(),
                i <= n,
                forall|j: int| 0 <= j < i ==> self.assets@[j].0@ != key_name@,
            decreases n - i,
        {
            if self.assets[i].0.eq(key_name) {
                proof {
                    self.lemma_entry(i as int);
                }
                return Some(&self.assets[i].1);
            }
            i = i + 1;
        }
        proof {
            if self@.contains_key(key_name@) {
                let j = choose|j: int| 0 <= j < self.assets@.len() && self.assets@[j].0@ == key_name@;
                assert(self.assets@[j].0@ == key_name@);
            }
        }
        None
    }

    /// A weak handle to the default asset registered under `key`, when there is one of type `A`.
    pub fn get<A: Asset, K: DefaultAssetsKey>(&self, key: K) -> (r: Option<WeakHandle<A>>)
        requires
            self.wf(),
        ensures
            r matches Some(h) ==> exists|k: Seq<char>|
                #![trigger self@[k]]
                {
                    &&& self@.contains_key(k)
                    &&& h@ == (self@[k].index, self@[k].generation)
                    &&& exists|t: TypeId| k == "Type_"@ + type_id_text(t) + ":"@ + key.name()
                },
            self@ == Map::<Seq<char>, WeakGenericHandle>::empty() ==> r is None,
            (forall|k: Seq<char>, t: TypeId|
                #![trigger self@.contains_key(k), type_id_text(t)]
                self@.contains_key(k) ==> k != "Type_"@ + type_id_text(t) + ":"@ + key.name())
                ==> r is None,
            exists|k: Seq<char>, expected: TypeId|
                #![trigger is_key_text(k, key.name()), holds_type(self@, k, expected)]
                {
                    &&& is_key_text(k, key.name())
                    &&& (r is Some <==> holds_type(self@, k, expected))
                    &&& r matches Some(h) ==> h@ == (self@[k].index, self@[k].generation)
                },
    {
        let key_name = key.key();
        let ghost k = key_name@;
        let ghost mut expected: TypeId = self@[k].type_id;
        let result = match self.get_keyed(&key_name) {
            Some(generic) => {
                let weak = generic.weak();
                let r = weak.try_into_handle::<A>();
                proof {
                    expected = choose|e: TypeId| (r is Ok <==> #[trigger] same_type(weak.type_id, e));
                }
                match r {
                    Ok(h) => {
                        assert(self@.contains_key(key_name@));
                        Some(h)
                    },
                    Err(()) => None,
                }
            },
            None => None,
        };
        proof {
            assert(result is Some <==> holds_type(self@, k, expected));
            assert(exists|t: TypeId| k == "Type_"@ + type_id_text(t) + ":"@ + key.name());
            assert(result matches Some(h) ==> h@ == (self@[k].index, self@[k].generation));
            assert({
                &&& is_key_text(k, key.name())
                &&& (result is Some <==> holds_type(self@, k, expected))
                &&& result matches Some(h) ==> h@ == (self@[k].index, self@[k].generation)
            });
        }
        result
    }
}

} // verus!
