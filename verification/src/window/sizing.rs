//! The size a new window starts with: a rule's size, the size last seen for its
//! application, or the size its client asks for.
use vstd::prelude::*;

use crate::canvas::Size;
use crate::config::WindowConfig;
use crate::text::{copy_str, str_equal, string_from_chars, trim, trim_chars, chars_of};
use crate::window::model::{Window, WindowProperties};
use crate::window::rules::{last_default_size, AppliedWindowRules, WindowRule};

verus! {

/// The key under which sizes of a window's application are remembered: its app id,
/// trimmed, where that is not empty.
pub open spec fn size_key(properties: WindowProperties) -> Option<Seq<char>> {
    match properties.app_id {
        Some(a) => if trim(a@).len() > 0 { Some(trim(a@)) } else { None },
        None => None,
    }
}

/// The key under which the sizes of a window's application are remembered.
pub fn size_memory_key(properties: &WindowProperties) -> (r: Option<String>)
    ensures
        match size_key(*properties) {
            Some(k) => r matches Some(s) && s@ == k,
            None => r is None,
        },
{
    match &properties.app_id {
        Some(a) => {
            let t = trim_chars(chars_of(a.as_str()).as_slice());
            if t.len() == 0 {
                None
            } else {
                Some(string_from_chars(t.as_slice()))
            }
        },
        None => None,
    }
}

/// The sizes last seen for each application; each key occurs once.
#[derive(Debug)]
pub struct SizeMemory {
    keys: Vec<String>,
    sizes: Vec<Size>,
}

impl SizeMemory {
    /// Each key has a size and no key occurs twice.
    pub closed spec fn wf(&self) -> bool {
        &&& self.keys@.len() == self.sizes@.len()
        &&& forall|i: int, j: int| 0 <= i < j < self.keys@.len() ==> (#[trigger] self.keys@[i])@ != (#[trigger] self.keys@[j])@
    }

    closed spec fn holds(&self, key: Seq<char>) -> bool {
        exists|i: int| 0 <= i < self.keys@.len() && (#[trigger] self.keys@[i])@ == key
    }

    closed spec fn index_of(&self, key: Seq<char>) -> int {
        choose|i: int| 0 <= i < self.keys@.len() && (#[trigger] self.keys@[i])@ == key
    }

    /// The remembered sizes by key.
    pub closed spec fn view(&self) -> Map<Seq<char>, Size> {
        Map::new(|k: Seq<char>| self.holds(k), |k: Seq<char>| self.sizes@[self.index_of(k)])
    }

    /// Nothing remembered.
    pub fn new() -> (m: SizeMemory)
        ensures
            m.wf(),
            m.view() == Map::<Seq<char>, Size>::empty(),
    {
        let m = SizeMemory { keys: Vec::new(), sizes: Vec::new() };
        assert(m.view() =~= Map::<Seq<char>, Size>::empty());
        m
    }

    fn find(&self, key: &str) -> (r: Option<usize>)
        requires
            self.wf(),
        ensures
            match r {
                Some(i) => i < self.keys@.len() && self.keys@[i as int]@ == key@ && self.holds(key@) && self.index_of(key@) == i,
                None => !self.holds(key@),
            },
    {
        let mut i: usize = 0;
        while i < self.keys.len()
            invariant
                self.wf(),
                i <= self.keys@.len(),
                forall|k: int| 0 <= k < i ==> (#[trigger] self.keys@[k])@ != key@,
            decreases self.keys@.len() - i,
        {
            if str_equal(self.keys[i].as_str(), key) {
                proof {
                    let j = self.index_of(key@);
                    assert(self.holds(key@));
                    if j != i as int {
                        if j < i as int {
                            assert(self.keys@[j]@ != self.keys@[i as int]@);
                        } else {
                            assert(self.keys@[i as int]@ != self.keys@[j]@);
                        }
                    }
                }
                return Some(i);
            }
            i += 1;
        }
        None
    }

    /// The size remembered under `key`, if any.
    pub fn get(&self, key: &str) -> (r: Option<Size>)
        requires
            self.wf(),
        ensures
            r == (if self.view().contains_key(key@) { Some(self.view()[key@]) } else { None::<Size> }),
    {
        match self.find(key) {
            Some(i) => Some(self.sizes[i]),
            None => None,
        }
    }

    /// Remembers `size` under `key`, replacing what was there.
    pub fn remember(&mut self, key: &str, size: Size)
        requires
            old(self).wf(),
        ensures
            final(self).wf(),
            final(self).view() == old(self).view().insert(key@, size),
    {
        let ghost before = *self;
        match self.find(key) {
            Some(i) => {
                self.sizes.set(i, size);
                proof {
                    assert(self.keys@ == before.keys@);
                    assert forall|k: Seq<char>| #[trigger] self.view().contains_key(k) == before.view().insert(key@, size).contains_key(k) by {
                        if k == key@ {
                            assert(self.keys@[i as int]@ == k);
                        }
                    }
                    assert forall|k: Seq<char>| self.view().contains_key(k) implies #[trigger] self.view()[k] == before.view().insert(key@, size)[k] by {
                        let j = self.index_of(k);
                        assert(self.keys@[j]@ == k);
                        if k == key@ {
                            if j != i as int {
                                if j < i as int {
                                    assert(self.keys@[j]@ != self.keys@[i as int]@);
                                } else {
                                    assert(self.keys@[i as int]@ != self.keys@[j]@);
                                }
                            }
                        } else {
                            assert(j != i as int);
                            assert(before.index_of(k) == j);
                        }
                    }
                    assert(self.view() =~= before.view().insert(key@, size));
                }
            },
            None => {
                self.keys.push(copy_str(key));
                self.sizes.push(size);
                proof {
                    let last = before.keys@.len() as int;
                    assert(self.keys@[last]@ == key@);
                    assert forall|i: int, j: int| 0 <= i < j < self.keys@.len() implies (#[trigger] self.keys@[i])@ != (#[trigger] self.keys@[j])@ by {
                        if j == last {
                            assert(before.keys@[i]@ != key@);
                        } else {
                            assert(before.keys@[i]@ != before.keys@[j]@);
                        }
                    }
                    assert forall|k: Seq<char>| #[trigger] self.view().contains_key(k) == before.view().insert(key@, size).contains_key(k) by {
                        if k == key@ {
                            assert(self.keys@[last]@ == k);
                        } else if before.holds(k) {
                            let j = before.index_of(k);
                            assert(self.keys@[j]@ == k);
                        } else if self.holds(k) {
                            let j = self.index_of(k);
                            if j != last {
                                assert(before.keys@[j]@ == k);
                            }
                        }
                    }
                    assert forall|k: Seq<char>| self.view().contains_key(k) implies #[trigger] self.view()[k] == before.view().insert(key@, size)[k] by {
                        let j = self.index_of(k);
                        assert(self.keys@[j]@ == k);
                        if k == key@ {
                            if j != last {
                                assert(before.keys@[j]@ == key@);
                            }
                        } else {
                            assert(j != last);
                            assert(before.keys@[j]@ == k);
                            assert(before.holds(k));
                            let j0 = before.index_of(k);
                            assert(before.keys@[j0]@ == k);
                            if j0 != j {
                                if j0 < j {
                                    assert(before.keys@[j0]@ != before.keys@[j]@);
                                } else {
                                    assert(before.keys@[j]@ != before.keys@[j0]@);
                                }
                            }
                        }
                    }
                    assert(self.view() =~= before.view().insert(key@, size));
                }
            },
        }
    }
}

/// The size a new window starts with: the size its rules give; else, where sizes are
/// remembered by application, the size remembered for its application; else, where the
/// client's size is used, the size the client asks for; else none.
pub open spec fn initial_size(
    rule_size: Option<Size>,
    sizing: WindowConfig,
    properties: WindowProperties,
    remembered: Map<Seq<char>, Size>,
    client_preferred: Option<Size>,
) -> Option<Size> {
    if rule_size is Some {
        rule_size
    } else if sizing.remember_sizes_by_app_id && size_key(properties) is Some && remembered.contains_key(size_key(properties)->0) {
        Some(remembered[size_key(properties)->0])
    } else if sizing.use_client_default_size {
        client_preferred
    } else {
        None
    }
}

/// The size a new window with `properties` starts with under `rules` (see
/// `initial_size`, the rule size being that of the last matching rule that sets one).
pub fn initial_window_size(
    rules: &[WindowRule],
    sizing: &WindowConfig,
    properties: &WindowProperties,
    memory: &SizeMemory,
    client_preferred: Option<Size>,
) -> (r: Option<Size>)
    requires
        memory.wf(),
    ensures
        r == initial_size(last_default_size(*properties, rules@), *sizing, *properties, memory.view(), client_preferred),
{
    let applied = AppliedWindowRules::from_rules(properties, rules);
    if let Some(size) = applied.default_size {
        return Some(size);
    }
    if sizing.remember_sizes_by_app_id {
        if let Some(key) = size_memory_key(properties) {
            if let Some(size) = memory.get(key.as_str()) {
                return Some(size);
            }
        }
    }
    if sizing.use_client_default_size {
        return client_preferred;
    }
    None
}

/// Remembers the size of `window` for its application, where sizes are remembered and
/// the window has a key.
pub fn remember_window_size(memory: &mut SizeMemory, sizing: &WindowConfig, window: &Window)
    requires
        old(memory).wf(),
    ensures
        final(memory).wf(),
        final(memory).view() == (match size_key(window.properties) {
            Some(k) => if sizing.remember_sizes_by_app_id { old(memory).view().insert(k, window.bounds.size) } else { old(memory).view() },
            None => old(memory).view(),
        }),
{
    if !sizing.remember_sizes_by_app_id {
        return;
    }
    if let Some(key) = size_memory_key(&window.properties) {
        memory.remember(key.as_str(), window.bounds.size);
    }
}

/// A size remembered for an application is what the next window of that application,
/// which no rule sizes, starts with while sizes are remembered by application.
pub proof fn law_remembered_size_is_reused(
    remembered: Map<Seq<char>, Size>,
    sizing: WindowConfig,
    properties: WindowProperties,
    size: Size,
    client_preferred: Option<Size>,
)
    requires
        sizing.remember_sizes_by_app_id,
        size_key(properties) is Some,
    ensures
        initial_size(None, sizing, properties, remembered.insert(size_key(properties)->0, size), client_preferred) == Some(size),
{
}

} // verus!
