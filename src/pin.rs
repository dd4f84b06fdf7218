//! Live pins: a pin descriptor with its cached value, its links to the pins
//! of other nodes, and the progress of each link.
use vstd::prelude::*;
use crate::graph::PinInfo;
use crate::ids::{ActorId, Id};
use crate::keyed::{keyed_view, keys_unique, lemma_keyed_contains, lemma_keyed_index, lemma_keyed_update, lemma_keyed_push, lemma_keyed_map_values};
use crate::value::{Value, clone_opt_value};

verus! {

/// Progress is counted in millionths: this value stands for "done".
pub const PROGRESS_SCALE: u32 = 1_000_000;

/// A link from a pin to a pin of another node.
pub struct PinLink {
    /// The remote pin.
    pub pin: Id,
    /// The actor of the remote node.
    pub node: ActorId,
    /// The last value received over this link.
    pub value: Option<Value>,
    /// The progress of the remote pin, in millionths.
    pub progress: u32,
}

impl Clone for PinLink {
    fn clone(&self) -> (r: Self)
        ensures
            r == *self,
    {
        PinLink {
            pin: self.pin,
            node: self.node,
            value: clone_opt_value(&self.value),
            progress: self.progress,
        }
    }
}

/// A pin of a running node.
pub struct Pin {
    /// The pin's descriptor.
    pub info: PinInfo,
    /// Whether this pin has been designated to cache its value.
    pub cache: bool,
    /// The links to other pins, one per remote pin.
    pub links: Vec<PinLink>,
    /// The current value, used for caching.
    pub value: Option<Value>,
    /// Whether `value` is a computed result, which is then served from the
    /// cache even when it is empty.
    pub computed: bool,
    /// The aggregated progress of the links, in millionths.
    pub progress: u32,
}

/// What a pin holds, with its links as a sequence.
pub struct PinModel {
    pub info: PinInfo,
    pub cache: bool,
    pub links: Seq<PinLink>,
    pub value: Option<Value>,
    pub computed: bool,
    pub progress: u32,
}

impl View for Pin {
    type V = PinModel;

    open spec fn view(&self) -> PinModel {
        PinModel {
            info: self.info,
            cache: self.cache,
            links: self.links@,
            value: self.value,
            computed: self.computed,
            progress: self.progress,
        }
    }
}

/// The key of a link: the remote pin it reaches.
pub open spec fn link_key() -> spec_fn(PinLink) -> Id {
    |l: PinLink| l.pin
}

/// The sum of the links' progress values.
pub open spec fn progress_sum(links: Seq<PinLink>) -> int
    decreases links.len(),
{
    if links.len() == 0 {
        0
    } else {
        progress_sum(links.drop_last()) + links.last().progress
    }
}

/// The arithmetic mean of the links' progress values, rounded down; zero
/// for a pin without links.
pub open spec fn mean_progress(links: Seq<PinLink>) -> int {
    if links.len() == 0 {
        0
    } else {
        progress_sum(links) / (links.len() as int)
    }
}

/// Every link's progress lies within the scale.
pub open spec fn links_in_scale(links: Seq<PinLink>) -> bool {
    forall|i: int| 0 <= i < links.len() ==> (#[trigger] links[i]).progress <= PROGRESS_SCALE
}

/// A link with its progress replaced.
pub open spec fn link_with_progress(l: PinLink, progress: u32) -> PinLink {
    PinLink { progress, ..l }
}

/// The links after one remote pin reported new progress.
pub open spec fn links_with_progress(links: Seq<PinLink>, link: Id, progress: u32) -> Seq<PinLink> {
    links.map_values(
        |l: PinLink|
            if l.pin == link {
                link_with_progress(l, progress)
            } else {
                l
            },
    )
}

impl PinModel {
    /// Link keys are unique, link progress lies in the scale, and the pin's
    /// progress is the mean of its links' progress.
    pub open spec fn wf(self) -> bool {
        &&& keys_unique(self.links, link_key())
        &&& links_in_scale(self.links)
        &&& self.progress == mean_progress(self.links)
    }

    /// A pin as it is first enumerated: no links, no value, nothing
    /// computed, no progress.
    pub open spec fn is_fresh(self) -> bool {
        &&& self.links.len() == 0
        &&& self.value is None
        &&& !self.computed
        &&& self.progress == 0
    }

    /// Whether some link reaches the given remote pin.
    pub open spec fn links_to(self, link: Id) -> bool {
        exists|i: int| 0 <= i < self.links.len() && self.links[i].pin == link
    }

    /// The pin with a new value.
    pub open spec fn with_value(self, value: Option<Value>) -> PinModel {
        PinModel { value, ..self }
    }

    /// The pin holding a computed result in its cache.
    pub open spec fn with_result(self, value: Option<Value>) -> PinModel {
        PinModel { value, computed: true, ..self }
    }

    /// The pin after the remote pin `link` reported `progress`: that link's
    /// progress is replaced and the pin's progress is their mean again. A
    /// pin without such a link is unchanged.
    pub open spec fn with_link_progress(self, link: Id, progress: u32) -> PinModel {
        if self.links_to(link) {
            let links = links_with_progress(self.links, link, progress);
            PinModel { links, progress: mean_progress(links) as u32, ..self }
        } else {
            self
        }
    }
}

/// The sum of progress values within the scale stays below count times scale.
pub proof fn lemma_progress_sum_bound(links: Seq<PinLink>)
    requires
        links_in_scale(links),
    ensures
        0 <= progress_sum(links) <= links.len() * (PROGRESS_SCALE as int),
    decreases links.len(),
{
    if links.len() > 0 {
        let t = links.drop_last();
        assert(links_in_scale(t)) by {
            assert forall|i: int| 0 <= i < t.len() implies (#[trigger] t[i]).progress
                <= PROGRESS_SCALE by {
                assert(t[i] == links[i]);
            }
        }
        lemma_progress_sum_bound(t);
        assert(links[links.len() - 1].progress <= PROGRESS_SCALE);
        assert((t.len() + 1) * (PROGRESS_SCALE as int) == t.len() * (PROGRESS_SCALE as int)
            + PROGRESS_SCALE) by (nonlinear_arith);
    }
}

/// The mean of progress values within the scale lies within the scale.
pub proof fn lemma_mean_in_scale(links: Seq<PinLink>)
    requires
        links_in_scale(links),
    ensures
        0 <= mean_progress(links) <= PROGRESS_SCALE,
{
    lemma_progress_sum_bound(links);
    if links.len() > 0 {
        let n = links.len() as int;
        let s = progress_sum(links);
        assert(s / n <= PROGRESS_SCALE) by (nonlinear_arith)
            requires
                0 <= s <= n * (PROGRESS_SCALE as int),
                n > 0,
        ;
        assert(0 <= s / n) by (nonlinear_arith)
            requires
                0 <= s,
                n > 0,
        ;
    }
}

impl Pin {
    /// A new input or output pin: it caches its value.
    pub fn new_io_basic(info: PinInfo) -> (r: Self)
        ensures
            r@.info == info,
            r@.cache,
            r@.is_fresh(),
            r@.wf(),
    {
        Pin { info, cache: true, links: Vec::new(), value: None, computed: false, progress: 0 }
    }

    /// A new receive or send pin: it does not cache.
    pub fn new_rs_basic(info: PinInfo) -> (r: Self)
        ensures
            r@.info == info,
            !r@.cache,
            r@.is_fresh(),
            r@.wf(),
    {
        Pin { info, cache: false, links: Vec::new(), value: None, computed: false, progress: 0 }
    }

    /// The mean progress of the links, rounded down.
    fn link_mean(&self) -> (r: u32)
        requires
            links_in_scale(self.links@),
        ensures
            r == mean_progress(self.links@),
    {
        let n = self.links.len();
        if n == 0 {
            return 0;
        }
        let mut sum: u128 = 0;
        let mut i: usize = 0;
        while i < n
            invariant
                n == self.links@.len(),
                i <= n,
                links_in_scale(self.links@),
                sum == progress_sum(self.links@.take(i as int)),
                sum <= i * (PROGRESS_SCALE as int),
            decreases n - i,
        {
            assert(self.links@.take(i as int + 1).drop_last() =~= self.links@.take(i as int));
            assert(self.links@[i as int].progress <= PROGRESS_SCALE);
            sum = sum + self.links[i].progress as u128;
            i = i + 1;
        }
        assert(self.links@.take(n as int) =~= self.links@);
        proof {
            lemma_mean_in_scale(self.links@);
        }
        (sum / (n as u128)) as u32
    }

    /// Records new progress from the remote pin `link` and recomputes the
    /// pin's progress as the mean over its links.
    pub fn update_link_progress(&mut self, link: Id, progress: u32)
        requires
            old(self)@.wf(),
            progress <= PROGRESS_SCALE,
        ensures
            final(self)@ == old(self)@.with_link_progress(link, progress),
            final(self)@.wf(),
    {
        let ghost before = self@;
        let n = self.links.len();
        let mut i: usize = 0;
        while i < n
            invariant
                n == self.links@.len(),
                i <= n,
                self@ == before,
                forall|j: int| 0 <= j < i ==> self.links@[j].pin != link,
            ensures
                i <= n,
                self@ == before,
                forall|j: int| 0 <= j < i ==> self.links@[j].pin != link,
                i < n ==> self.links@[i as int].pin == link,
            decreases n - i,
        {
            if self.links[i].pin == link {
                break;
            }
            i = i + 1;
        }
        if i == n {
            assert(!before.links_to(link));
            return;
        }
        let mut l = self.links.remove(i);
        l.progress = progress;
        self.links.insert(i, l);
        let ghost updated = links_with_progress(before.links, link, progress);
        assert(self.links@ =~= updated) by {
            assert forall|j: int| 0 <= j < n implies self.links@[j] == updated[j] by {
                if j != i {
                    assert(key_of(before.links, j) != key_of(before.links, i as int));
                }
            }
        }
        assert(links_in_scale(self.links@));
        assert(keys_unique(self.links@, link_key())) by {
            assert forall|a: int, b: int|
                0 <= a < n && 0 <= b < n && a != b implies (link_key())(
                #[trigger] self.links@[a],
            ) != (link_key())(#[trigger] self.links@[b]) by {
                assert(key_of(before.links, a) != key_of(before.links, b));
            }
        }
        self.progress = self.link_mean();
        proof {
            lemma_mean_in_scale(self.links@);
        }
    }
}

/// What a behaviour declares of a pin: its descriptor, with the name and
/// datatype as text, and whether it caches.
pub struct PinDecl {
    pub uuid: Id,
    pub name: Seq<char>,
    pub datatype: Seq<char>,
    pub valuable: Option<bool>,
    pub dimensions: Option<u16>,
    pub expandable: Option<bool>,
    pub cache: bool,
}

/// The declaration of a pin with the given descriptor.
pub open spec fn info_decl(info: PinInfo, cache: bool) -> PinDecl {
    PinDecl {
        uuid: info.uuid,
        name: info.name@,
        datatype: info.datatype@,
        valuable: info.valuable,
        dimensions: info.dimensions,
        expandable: info.expandable,
        cache,
    }
}

/// The declarations of pins with the given descriptors.
pub open spec fn info_decls(infos: Seq<PinInfo>, cache: bool) -> Seq<PinDecl> {
    infos.map_values(|i: PinInfo| info_decl(i, cache))
}

/// What a pin declares.
pub open spec fn pin_decl(p: Pin) -> PinDecl {
    info_decl(p.info, p.cache)
}

/// What each pin of a list declares.
pub open spec fn pin_decls(pins: Seq<Pin>) -> Seq<PinDecl> {
    pins.map_values(|p: Pin| pin_decl(p))
}

/// The ids that a list of declarations declares.
pub open spec fn decl_ids(decls: Seq<PinDecl>) -> Set<Id> {
    decls.map_values(|d: PinDecl| d.uuid).to_set()
}

/// The map built from pins holds exactly the ids they declare.
pub proof fn lemma_pins_map_dom(pins: Seq<Pin>)
    ensures
        pins_map(pins).dom() == decl_ids(pin_decls(pins)),
{
    let ms = pin_models(pins);
    let ids = pin_decls(pins).map_values(|d: PinDecl| d.uuid);
    assert forall|k: Id| pins_map(pins).dom().contains(k) <==> decl_ids(pin_decls(pins)).contains(k) by {
        lemma_keyed_contains(ms, pin_key(), k);
        if pins_map(pins).contains_key(k) {
            let i = choose|i: int| 0 <= i < ms.len() && (pin_key())(ms[i]) == k;
            assert(ids[i] == k);
            assert(ids.contains(k));
        }
        if ids.contains(k) {
            let i = choose|i: int| 0 <= i < ids.len() && ids[i] == k;
            assert((pin_key())(ms[i]) == k);
        }
    }
    assert(pins_map(pins).dom() =~= decl_ids(pin_decls(pins)));
}

/// A table of pins keyed by pin id, as a node holds its inputs, outputs,
/// receives and sends.
pub struct PinMap {
    pub pins: Vec<Pin>,
}

/// The key of a pin: its id.
pub open spec fn pin_key() -> spec_fn(PinModel) -> Id {
    |m: PinModel| m.info.uuid
}

/// What each pin of a list holds.
pub open spec fn pin_models(pins: Seq<Pin>) -> Seq<PinModel> {
    pins.map_values(|p: Pin| p@)
}

/// The map from pin id to pin that inserting the pins in order yields.
pub open spec fn pins_map(pins: Seq<Pin>) -> Map<Id, PinModel> {
    keyed_view(pin_models(pins), pin_key())
}

/// Every pin of a map is well formed.
pub open spec fn all_pins_wf(m: Map<Id, PinModel>) -> bool {
    forall|k: Id| m.contains_key(k) ==> (#[trigger] m[k]).wf()
}

/// Every pin of a list is fresh and well formed.
pub open spec fn all_fresh(pins: Seq<Pin>) -> bool {
    forall|i: int| 0 <= i < pins.len() ==> (#[trigger] pins[i])@.is_fresh() && pins[i]@.wf()
}

/// Every pin reached by `link` records the new progress.
pub open spec fn progress_updated(m: Map<Id, PinModel>, link: Id, progress: u32) -> Map<
    Id,
    PinModel,
> {
    m.map_values(|p: PinModel| p.with_link_progress(link, progress))
}

impl View for PinMap {
    type V = Map<Id, PinModel>;

    open spec fn view(&self) -> Map<Id, PinModel> {
        pins_map(self.pins@)
    }
}

impl PinMap {
    /// Pin ids are unique and every pin is well formed.
    pub open spec fn wf(&self) -> bool {
        &&& keys_unique(pin_models(self.pins@), pin_key())
        &&& forall|i: int| 0 <= i < self.pins@.len() ==> (#[trigger] self.pins@[i])@.wf()
    }

    /// The pins of a well-formed table are well formed, each under its own id.
    pub proof fn lemma_wf(&self)
        requires
            self.wf(),
        ensures
            all_pins_wf(self@),
            forall|k: Id| #[trigger] self@.contains_key(k) ==> self@[k].info.uuid == k,
    {
        assert forall|k: Id| self@.contains_key(k) implies (#[trigger] self@[k]).wf()
            && self@[k].info.uuid == k by {
            let ms = pin_models(self.pins@);
            lemma_keyed_contains(ms, pin_key(), k);
            let i = choose|i: int| 0 <= i < ms.len() && (pin_key())(ms[i]) == k;
            lemma_keyed_index(ms, pin_key(), i);
            assert(ms[i] == self.pins@[i]@);
        }
    }

    /// An empty table.
    pub fn new() -> (r: Self)
        ensures
            r@ == Map::<Id, PinModel>::empty(),
            r.wf(),
    {
        let r = PinMap { pins: Vec::new() };
        assert(pin_models(r.pins@) =~= Seq::<PinModel>::empty());
        r
    }

    /// The index of the pin with the given id.
    fn find(&self, id: Id) -> (r: Option<usize>)
        requires
            self.wf(),
        ensures
            match r {
                Some(i) => i < self.pins@.len() && self.pins@[i as int].info.uuid == id
                    && self@.contains_key(id) && self@[id] == self.pins@[i as int]@,
                None => !self@.contains_key(id),
            },
    {
        let ghost ms = pin_models(self.pins@);
        let mut i: usize = 0;
        while i < self.pins.len()
            invariant
                i <= self.pins@.len(),
                self.wf(),
                ms == pin_models(self.pins@),
                forall|j: int| 0 <= j < i ==> self.pins@[j].info.uuid != id,
            decreases self.pins@.len() - i,
        {
            if self.pins[i].info.uuid == id {
                proof {
                    assert(ms[i as int] == self.pins@[i as int]@);
                    lemma_keyed_index(ms, pin_key(), i as int);
                }
                return Some(i);
            }
            i = i + 1;
        }
        proof {
            lemma_keyed_contains(ms, pin_key(), id);
            if self@.contains_key(id) {
                let j = choose|j: int| 0 <= j < ms.len() && (pin_key())(ms[j]) == id;
                assert(ms[j] == self.pins@[j]@);
            }
        }
        None
    }

    /// The pin with the given id.
    pub fn get(&self, id: Id) -> (r: Option<&Pin>)
        requires
            self.wf(),
        ensures
            match r {
                Some(p) => self@.contains_key(id) && p@ == self@[id],
                None => !self@.contains_key(id),
            },
    {
        match self.find(id) {
            Some(i) => Some(&self.pins[i]),
            None => None,
        }
    }

    /// Adds a pin, replacing any pin with the same id.
    pub fn insert(&mut self, pin: Pin)
        requires
            old(self).wf(),
            pin@.wf(),
        ensures
            final(self).wf(),
            final(self)@ == old(self)@.insert(pin.info.uuid, pin@),
    {
        let ghost ms = pin_models(self.pins@);
        let ghost pm = pin@;
        match self.find(pin.info.uuid) {
            Some(i) => {
                self.pins.remove(i);
                self.pins.insert(i, pin);
                proof {
                    assert(pin_models(self.pins@) =~= ms.update(i as int, pm));
                    lemma_keyed_update(ms, pin_key(), i as int, pm);
                }
            },
            None => {
                self.pins.push(pin);
                proof {
                    assert(pin_models(self.pins@) =~= ms.push(pm));
                    lemma_keyed_push(ms, pin_key(), pm);
                }
            },
        }
    }

    /// The table holding the given pins, a later pin replacing an earlier
    /// one with the same id.
    pub fn from_pins(pins: Vec<Pin>) -> (r: Self)
        requires
            forall|i: int| 0 <= i < pins@.len() ==> (#[trigger] pins@[i])@.wf(),
        ensures
            r.wf(),
            r@ == pins_map(pins@),
    {
        let mut r = PinMap::new();
        let mut rest = pins;
        let ghost all = rest@;
        let n = rest.len();
        let mut i: usize = 0;
        while i < n
            invariant
                r.wf(),
                n == all.len(),
                i <= n,
                r@ == pins_map(all.take(i as int)),
                rest@ == all.skip(i as int),
                forall|j: int| 0 <= j < all.len() ==> (#[trigger] all[j])@.wf(),
            decreases n - i,
        {
            let p = rest.remove(0);
            assert(p == all[i as int]);
            assert(rest@ =~= all.skip(i as int + 1));
            assert(pin_models(all.take(i as int + 1)).drop_last() =~= pin_models(all.take(i as int)));
            r.insert(p);
            i = i + 1;
        }
        assert(all.take(all.len() as int) =~= all);
        r
    }

    /// Sets the value of the pin with the given id, if there is one.
    pub fn set_value(&mut self, id: Id, value: Option<Value>)
        requires
            old(self).wf(),
        ensures
            final(self).wf(),
            final(self)@ == (if old(self)@.contains_key(id) {
                old(self)@.insert(id, old(self)@[id].with_value(value))
            } else {
                old(self)@
            }),
    {
        let ghost ms = pin_models(self.pins@);
        match self.find(id) {
            Some(i) => {
                let mut p = self.pins.remove(i);
                p.value = value;
                let ghost pm = p@;
                self.pins.insert(i, p);
                proof {
                    assert(pin_models(self.pins@) =~= ms.update(i as int, pm));
                    lemma_keyed_update(ms, pin_key(), i as int, pm);
                }
            },
            None => {},
        }
    }

    /// Stores a computed result on the pin with the given id, if there is one.
    pub fn cache_result(&mut self, id: Id, value: Option<Value>)
        requires
            old(self).wf(),
        ensures
            final(self).wf(),
            final(self)@ == (if old(self)@.contains_key(id) {
                old(self)@.insert(id, old(self)@[id].with_result(value))
            } else {
                old(self)@
            }),
    {
        let ghost ms = pin_models(self.pins@);
        match self.find(id) {
            Some(i) => {
                let mut p = self.pins.remove(i);
                p.value = value;
                p.computed = true;
                let ghost pm = p@;
                self.pins.insert(i, p);
                proof {
                    assert(pin_models(self.pins@) =~= ms.update(i as int, pm));
                    lemma_keyed_update(ms, pin_key(), i as int, pm);
                }
            },
            None => {},
        }
    }

    /// Records new progress from the remote pin `link` on every pin linked
    /// to it.
    pub fn update_progress(&mut self, link: Id, progress: u32)
        requires
            old(self).wf(),
            progress <= PROGRESS_SCALE,
        ensures
            final(self).wf(),
            final(self)@ == progress_updated(old(self)@, link, progress),
    {
        let ghost ms = pin_models(self.pins@);
        let ghost g = |p: PinModel| p.with_link_progress(link, progress);
        let n = self.pins.len();
        let mut i: usize = 0;
        while i < n
            invariant
                n == self.pins@.len(),
                i <= n,
                ms.len() == n,
                forall|j: int| 0 <= j < i ==> (#[trigger] self.pins@[j])@ == ms[j].with_link_progress(link, progress),
                forall|j: int| i <= j < n ==> (#[trigger] self.pins@[j])@ == ms[j],
                forall|j: int| 0 <= j < n ==> (#[trigger] self.pins@[j])@.wf(),
                keys_unique(ms, pin_key()),
                progress <= PROGRESS_SCALE,
            decreases n - i,
        {
            let ghost before = self.pins@;
            let mut p = self.pins.remove(i);
            p.update_link_progress(link, progress);
            let ghost after = p;
            self.pins.insert(i, p);
            assert(self.pins@ =~= before.update(i as int, after));
            i = i + 1;
        }
        proof {
            assert(pin_models(self.pins@) =~= ms.map_values(g));
            assert forall|t: PinModel| #[trigger] (pin_key())(g(t)) == (pin_key())(t) by {}
            lemma_keyed_map_values(ms, pin_key(), g);
            assert(keyed_view(ms, pin_key()).map_values(g) =~= progress_updated(
                keyed_view(ms, pin_key()),
                link,
                progress,
            ));
            assert forall|a: int, b: int|
                0 <= a < n && 0 <= b < n && a != b implies (pin_key())(
                #[trigger] pin_models(self.pins@)[a],
            ) != (pin_key())(#[trigger] pin_models(self.pins@)[b]) by {
                assert((pin_key())(ms[a]) != (pin_key())(ms[b]));
            }
        }
    }
}

/// The key of the entry at an index.
spec fn key_of(links: Seq<PinLink>, i: int) -> Id {
    (link_key())(links[i])
}

} // verus!
