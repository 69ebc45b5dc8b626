//! Tracks the pages of guest memory that are written, in host time and in guest
//! time.
//!
//! Each time domain has a [`DirtyPageSet`]: two byte maps, one of which collects
//! the pages written in the running period. At the end of a period the maps
//! change roles, and the pages in the map that collected so far are counted and
//! cleared.
use vstd::prelude::*;
use vstd::set_lib::*;
use vstd::string::*;

use crate::parameter::Parameters;

verus! {

/// Size of a page, in bytes.
pub const PAGE_SIZE: u64 = 4096;

/// What a map holds for a dirty page.
pub const DIRTY_BYTE: u8 = 0xFF;

/// Memory that is tracked, in GiB.
pub const MAX_RAM_SIZE_GB: u64 = 64;

/// Number of pages in the tracked memory.
pub const MAX_PAGES: usize = 16_777_216;

/// Whether a page number lies in the tracked memory.
pub open spec fn is_tracked_page(page: int) -> bool {
    0 <= page < MAX_PAGES
}

/// The different pages of the tracked memory among `pages`.
pub open spec fn tracked_pages(pages: Seq<int>) -> Set<int> {
    Set::new(|page: int| is_tracked_page(page) && pages.contains(page))
}

/// The pages that a byte map holds as dirty.
pub open spec fn dirty_pages(buffer: Seq<u8>) -> Set<int> {
    Set::new(|page: int| 0 <= page < buffer.len() && buffer[page] != 0)
}

/// A byte map that covers the tracked memory and holds no page as dirty.
pub open spec fn clear_map() -> Seq<u8> {
    Seq::new(MAX_PAGES as nat, |page: int| 0u8)
}

/// A byte map covers the tracked memory, and each of its bytes is 0 or
/// [`DIRTY_BYTE`].
pub open spec fn is_map(bytes: Seq<u8>) -> bool {
    &&& bytes.len() == MAX_PAGES
    &&& forall|page: int|
        0 <= page < bytes.len() ==> #[trigger] bytes[page] == 0 || bytes[page] == DIRTY_BYTE
}

/// The bytes of a map after a write to `page`.
pub open spec fn marked_bytes(bytes: Seq<u8>, page: int) -> Seq<u8> {
    if is_tracked_page(page) {
        bytes.update(page, DIRTY_BYTE)
    } else {
        bytes
    }
}

/// What a [`DirtyPageSet`] stands for.
#[verifier::ext_equal]
pub struct DirtyPages {
    /// The map that collects, 0 or 1.
    pub active: int,
    /// The pages in map 0.
    pub buffer_0: Set<int>,
    /// The pages in map 1.
    pub buffer_1: Set<int>,
    /// Number of pages of the last completed period.
    pub period_count: nat,
}

impl DirtyPages {
    /// No page is dirty and no period has been completed.
    pub open spec fn initial() -> DirtyPages {
        DirtyPages {
            active: 0,
            buffer_0: Set::empty(),
            buffer_1: Set::empty(),
            period_count: 0,
        }
    }

    /// The pages collected in the running period.
    pub open spec fn collecting(self) -> Set<int> {
        if self.active == 0 {
            self.buffer_0
        } else {
            self.buffer_1
        }
    }

    /// The pages in the map that does not collect.
    pub open spec fn resting(self) -> Set<int> {
        if self.active == 0 {
            self.buffer_1
        } else {
            self.buffer_0
        }
    }

    /// The map that does not collect is empty.
    pub open spec fn settled(self) -> bool {
        self.resting() == Set::<int>::empty()
    }

    /// After a write to `page` that goes to the given map.
    pub open spec fn marked_in(self, buffer: int, page: int) -> DirtyPages {
        if !is_tracked_page(page) {
            self
        } else if buffer == 0 {
            DirtyPages { buffer_0: self.buffer_0.insert(page), ..self }
        } else {
            DirtyPages { buffer_1: self.buffer_1.insert(page), ..self }
        }
    }

    /// After a write to `page`.
    pub open spec fn marked(self, page: int) -> DirtyPages {
        self.marked_in(self.active, page)
    }

    /// After writes to `pages`, in this order.
    pub open spec fn marked_all(self, pages: Seq<int>) -> DirtyPages
        decreases pages.len(),
    {
        if pages.len() == 0 {
            self
        } else {
            self.marked_all(pages.drop_last()).marked(pages.last())
        }
    }

    /// After the end of a period: the maps change roles, and the map that
    /// collected is counted and cleared.
    pub open spec fn swapped(self) -> DirtyPages {
        if self.active == 0 {
            DirtyPages {
                active: 1,
                buffer_0: Set::empty(),
                buffer_1: self.buffer_1,
                period_count: self.buffer_0.len(),
            }
        } else {
            DirtyPages {
                active: 0,
                buffer_0: self.buffer_0,
                buffer_1: Set::empty(),
                period_count: self.buffer_1.len(),
            }
        }
    }
}

/// The dirty pages of one time domain.
pub struct DirtyPageSet {
    active_buffer: usize,
    buffer_0: Vec<u8>,
    buffer_1: Vec<u8>,
    period_count: usize,
}

impl View for DirtyPageSet {
    type V = DirtyPages;

    closed spec fn view(&self) -> DirtyPages {
        DirtyPages {
            active: self.active_buffer as int,
            buffer_0: dirty_pages(self.buffer_0@),
            buffer_1: dirty_pages(self.buffer_1@),
            period_count: self.period_count as nat,
        }
    }
}

impl DirtyPageSet {
    /// The bytes of the map that collects.
    pub closed spec fn active_bytes(&self) -> Seq<u8> {
        if self.active_buffer == 0 {
            self.buffer_0@
        } else {
            self.buffer_1@
        }
    }

    /// The bytes of the map that does not collect.
    pub closed spec fn resting_bytes(&self) -> Seq<u8> {
        if self.active_buffer == 0 {
            self.buffer_1@
        } else {
            self.buffer_0@
        }
    }

    /// One of the maps collects, in bytes that are 0 or [`DIRTY_BYTE`], and the
    /// other one is clear.
    pub closed spec fn wf(&self) -> bool {
        &&& self.active_buffer == 0 || self.active_buffer == 1
        &&& is_map(self.active_bytes())
        &&& self.resting_bytes() == clear_map()
    }

    /// At all times one of the two maps collects, every byte of both is 0 or
    /// [`DIRTY_BYTE`], and the map that does not collect is all 0. The dirty
    /// pages are those whose byte is not 0.
    pub proof fn law_maps(&self)
        requires
            self.wf(),
        ensures
            self@.active == 0 || self@.active == 1,
            is_map(self.active_bytes()),
            is_map(self.resting_bytes()),
            self.resting_bytes() == clear_map(),
            self@.collecting() == dirty_pages(self.active_bytes()),
            self@.resting() == dirty_pages(self.resting_bytes()),
            self@.settled(),
    {
        assert(dirty_pages(clear_map()) =~= Set::<int>::empty());
    }

    /// No more pages are collected than the memory has.
    pub proof fn law_collecting_is_bounded(&self)
        requires
            self.wf(),
        ensures
            self@.collecting().finite(),
            self@.collecting().len() <= MAX_PAGES,
    {
        let memory = set_int_range(0, MAX_PAGES as int);
        lemma_int_range(0, MAX_PAGES as int);
        assert(self@.collecting().subset_of(memory));
        lemma_len_subset(self@.collecting(), memory);
    }

    /// No page is dirty: both maps are all 0.
    pub fn new() -> (set: DirtyPageSet)
        ensures
            set.wf(),
            set@ == DirtyPages::initial(),
            set.active_bytes() == clear_map(),
            set.resting_bytes() == clear_map(),
    {
        let set = DirtyPageSet {
            active_buffer: 0,
            buffer_0: vec![0u8; MAX_PAGES],
            buffer_1: vec![0u8; MAX_PAGES],
            period_count: 0,
        };
        assert(set.active_bytes() =~= clear_map());
        assert(set.resting_bytes() =~= clear_map());
        assert(set@.buffer_0 =~= Set::<int>::empty());
        assert(set@.buffer_1 =~= Set::<int>::empty());
        set
    }

    /// Records a write to page `page_num`: its byte in the map that collects
    /// becomes [`DIRTY_BYTE`]. Pages outside the tracked memory are ignored.
    pub fn mark_dirty(&mut self, page_num: usize)
        requires
            old(self).wf(),
        ensures
            final(self).wf(),
            final(self)@ == old(self)@.marked(page_num as int),
            final(self).active_bytes() == marked_bytes(old(self).active_bytes(), page_num as int),
            final(self).resting_bytes() == old(self).resting_bytes(),
            page_num < MAX_PAGES ==> final(self)@.collecting() == old(self)@.collecting().insert(
                page_num as int,
            ),
            page_num < MAX_PAGES ==> final(self).active_bytes() == old(self).active_bytes().update(
                page_num as int,
                0xFFu8,
            ),
            page_num >= MAX_PAGES ==> *final(self) == *old(self),
            final(self)@.period_count == old(self)@.period_count,
            final(self)@.active == old(self)@.active,
    {
        if page_num < MAX_PAGES {
            let active_idx: usize = self.active_buffer;
            if active_idx == 0 {
                self.buffer_0[page_num] = DIRTY_BYTE;
            } else {
                self.buffer_1[page_num] = DIRTY_BYTE;
            }
        }
        assert(self@ =~= old(self)@.marked(page_num as int));
    }

    /// Ends the period: the maps change roles, and the pages collected so far
    /// are counted and cleared. Returns their number. Both maps are all 0 then.
    pub fn swap_and_count(&mut self) -> (count: usize)
        requires
            old(self).wf(),
        ensures
            final(self).wf(),
            final(self)@ == old(self)@.swapped(),
            final(self).active_bytes() == clear_map(),
            final(self).resting_bytes() == clear_map(),
            count == old(self)@.collecting().len(),
            count <= MAX_PAGES,
            count == final(self)@.period_count,
            final(self)@.active == 1 - old(self)@.active,
            final(self)@.collecting() == Set::<int>::empty(),
            final(self)@.resting() == Set::<int>::empty(),
    {
        let old_active: usize = self.active_buffer;
        self.active_buffer = 1 - old_active;
        let dirty_count: usize = if old_active == 0 {
            drain(&mut self.buffer_0)
        } else {
            drain(&mut self.buffer_1)
        };
        self.period_count = dirty_count;
        proof {
            assert(self.resting_bytes() =~= clear_map());
            assert(dirty_pages(clear_map()) =~= Set::<int>::empty());
            assert(self@ =~= old(self)@.swapped());
            assert(self@.collecting() =~= Set::<int>::empty());
        }
        dirty_count
    }

    /// Number of pages of the last completed period.
    pub fn get_count(&self) -> (count: usize)
        ensures
            count == self@.period_count,
    {
        self.period_count
    }
}

/// Counts the dirty pages of a map and clears it: each of its bytes becomes 0.
fn drain(buffer: &mut Vec<u8>) -> (count: usize)
    ensures
        final(buffer)@ == Seq::new(old(buffer)@.len(), |page: int| 0u8),
        count == dirty_pages(old(buffer)@).len(),
        count <= old(buffer)@.len(),
{
    let ghost before = buffer@;
    let mut dirty_count: usize = 0;
    proof {
        assert(dirty_pages(before.take(0)) =~= Set::<int>::empty());
    }
    let len: usize = buffer.len();
    for i in 0..len
        invariant
            len == before.len(),
            buffer@.len() == before.len(),
            forall|j: int| 0 <= j < i ==> buffer@[j] == 0,
            forall|j: int| i <= j < before.len() ==> buffer@[j] == before[j],
            dirty_pages(before.take(i as int)).finite(),
            dirty_count == dirty_pages(before.take(i as int)).len(),
            dirty_count <= i,
    {
        proof {
            let shorter = dirty_pages(before.take(i as int));
            let longer = dirty_pages(before.take(i + 1));
            if before[i as int] != 0 {
                assert(longer =~= shorter.insert(i as int));
            } else {
                assert(longer =~= shorter);
            }
        }
        if buffer[i] != 0 {
            dirty_count += 1;
            buffer[i] = 0;
        }
    }
    proof {
        assert(before.take(before.len() as int) =~= before);
        assert(buffer@ =~= Seq::new(before.len(), |page: int| 0u8));
    }
    dirty_count
}

/// The dirty pages in host time and in guest time.
pub struct DirtyPageTrackers {
    /// Dirty pages, with periods in host time.
    pub host: DirtyPageSet,
    /// Dirty pages, with periods in guest time.
    pub guest: DirtyPageSet,
}

impl DirtyPageTrackers {
    /// Both time domains are well-formed.
    pub open spec fn wf(&self) -> bool {
        &&& self.host.wf()
        &&& self.guest.wf()
    }

    /// No page is dirty in either time domain.
    pub fn new() -> (trackers: DirtyPageTrackers)
        ensures
            trackers.wf(),
            trackers.host@ == DirtyPages::initial(),
            trackers.guest@ == DirtyPages::initial(),
    {
        DirtyPageTrackers { host: DirtyPageSet::new(), guest: DirtyPageSet::new() }
    }
}

/// Number of pages of the last completed period in host time.
pub fn get_host_dirty_page_count(trackers: &DirtyPageTrackers) -> (count: usize)
    ensures
        count == trackers.host@.period_count,
{
    trackers.host.get_count()
}

/// Ends the period in host time and returns the number of its pages.
pub fn swap_host_buffers(trackers: &mut DirtyPageTrackers) -> (count: usize)
    requires
        old(trackers).wf(),
    ensures
        final(trackers).wf(),
        final(trackers).host@ == old(trackers).host@.swapped(),
        final(trackers).guest == old(trackers).guest,
        count == old(trackers).host@.collecting().len(),
        count <= MAX_PAGES,
        count == final(trackers).host@.period_count,
        final(trackers).host@.collecting() == Set::<int>::empty(),
{
    trackers.host.swap_and_count()
}

/// Number of pages of the last completed period in guest time.
pub fn get_guest_dirty_page_count(trackers: &DirtyPageTrackers) -> (count: usize)
    ensures
        count == trackers.guest@.period_count,
{
    trackers.guest.get_count()
}

/// Ends the period in guest time and returns the number of its pages.
pub fn swap_guest_buffers(trackers: &mut DirtyPageTrackers) -> (count: usize)
    requires
        old(trackers).wf(),
    ensures
        final(trackers).wf(),
        final(trackers).host == old(trackers).host,
        final(trackers).guest@ == old(trackers).guest@.swapped(),
        count == old(trackers).guest@.collecting().len(),
        count <= MAX_PAGES,
        count == final(trackers).guest@.period_count,
        final(trackers).guest@.collecting() == Set::<int>::empty(),
{
    trackers.guest.swap_and_count()
}

/// What the emulator reports while a memory access is handled.
#[derive(Debug, Clone, Copy, PartialEq, Eq, Structural)]
pub enum AccessEvent {
    /// The access begins.
    Begin,
    /// Whether the access is a store.
    Store(bool),
    /// Whether the address belongs to a device.
    Device(bool),
    /// The physical address of the access.
    PhysicalAddress(u64),
}

/// What is asked of the emulator while a memory access is handled.
#[derive(Debug, Clone, Copy, PartialEq, Eq, Structural)]
pub enum AccessAction {
    /// The access is done with.
    Finish,
    /// Ask whether the access is a store.
    AskStore,
    /// Translate the address, and ask whether it belongs to a device.
    AskDevice,
    /// Ask for the physical address.
    AskPhysicalAddress,
}

/// Whether the accesses of a core are measured.
pub open spec fn is_measured(parameters: Parameters, vcpu_idx: u32) -> bool {
    parameters.measure_half_of_cores ==> vcpu_idx < parameters.core_count / 2
}

/// What follows an event of an access by core `vcpu_idx`.
pub open spec fn access_action(
    parameters: Parameters,
    vcpu_idx: u32,
    event: AccessEvent,
) -> AccessAction {
    match event {
        AccessEvent::Begin => if is_measured(parameters, vcpu_idx)
            && parameters.enable_dirty_page_tracker {
            AccessAction::AskStore
        } else {
            AccessAction::Finish
        },
        AccessEvent::Store(is_store) => if is_store {
            AccessAction::AskDevice
        } else {
            AccessAction::Finish
        },
        AccessEvent::Device(is_device) => if is_device {
            AccessAction::Finish
        } else {
            AccessAction::AskPhysicalAddress
        },
        AccessEvent::PhysicalAddress(_) => AccessAction::Finish,
    }
}

/// Decides what follows an event of a memory access by core `vcpu_idx`.
pub fn decide_access(parameters: &Parameters, vcpu_idx: u32, event: AccessEvent) -> (action:
    AccessAction)
    ensures
        action == access_action(*parameters, vcpu_idx, event),
{
    match event {
        AccessEvent::Begin => {
            if parameters.measure_half_of_cores && vcpu_idx >= parameters.core_count / 2 {
                return AccessAction::Finish;
            }
            if !parameters.enable_dirty_page_tracker {
                return AccessAction::Finish;
            }
            AccessAction::AskStore
        },
        AccessEvent::Store(is_store) => {
            if !is_store {
                return AccessAction::Finish;
            }
            AccessAction::AskDevice
        },
        AccessEvent::Device(is_device) => {
            if is_device {
                return AccessAction::Finish;
            }
            AccessAction::AskPhysicalAddress
        },
        AccessEvent::PhysicalAddress(_) => AccessAction::Finish,
    }
}

/// Handles one event of a memory access by core `vcpu_idx`. Once the physical
/// address is known, its page is marked in both time domains.
pub fn vcpu_mem_access(
    parameters: &Parameters,
    trackers: &mut DirtyPageTrackers,
    vcpu_idx: u32,
    event: AccessEvent,
) -> (action: AccessAction)
    requires
        old(trackers).wf(),
    ensures
        final(trackers).wf(),
        action == access_action(*parameters, vcpu_idx, event),
        match event {
            AccessEvent::PhysicalAddress(pa) => {
                let page = pa as int / PAGE_SIZE as int;
                &&& final(trackers).host@ == old(trackers).host@.marked(page)
                &&& final(trackers).host.active_bytes() == marked_bytes(
                    old(trackers).host.active_bytes(),
                    page,
                )
                &&& final(trackers).guest@ == old(trackers).guest@.marked(page)
                &&& final(trackers).guest.active_bytes() == marked_bytes(
                    old(trackers).guest.active_bytes(),
                    page,
                )
            },
            _ => *final(trackers) == *old(trackers),
        },
        match event {
            AccessEvent::PhysicalAddress(pa) => if pa < MAX_RAM_SIZE_GB * 0x4000_0000 {
                let page = pa as int / 4096;
                &&& final(trackers).host@.collecting() == old(trackers).host@.collecting().insert(
                    page,
                )
                &&& final(trackers).guest@.collecting() == old(trackers).guest@.collecting().insert(
                    page,
                )
            } else {
                *final(trackers) == *old(trackers)
            },
            _ => true,
        },
{
    if let AccessEvent::PhysicalAddress(pa) = event {
        let page_num: u64 = pa / PAGE_SIZE;
        if page_num < MAX_PAGES as u64 {
            trackers.host.mark_dirty(page_num as usize);
            trackers.guest.mark_dirty(page_num as usize);
        }
    }
    decide_access(parameters, vcpu_idx, event)
}

/// What the emulator reports while a block is translated.
#[derive(Debug, Clone, Copy, PartialEq, Eq, Structural)]
pub enum TranslationEvent {
    /// A block was translated.
    Begin,
    /// The number of instructions in the block.
    Counted(usize),
    /// The memory callback of instruction `index` of `count` is registered.
    Registered { index: usize, count: usize },
}

/// What is asked of the emulator while a block is translated.
#[derive(Debug, Clone, Copy, PartialEq, Eq, Structural)]
pub enum TranslationAction {
    /// The block is done with.
    Finish,
    /// Count the instructions of the block.
    Count,
    /// Register the memory callback of this instruction.
    Register(usize),
}

/// What follows an event of a translation.
pub open spec fn translation_action(
    parameters: Parameters,
    event: TranslationEvent,
) -> TranslationAction {
    match event {
        TranslationEvent::Begin => if parameters.enable_dirty_page_tracker {
            TranslationAction::Count
        } else {
            TranslationAction::Finish
        },
        TranslationEvent::Counted(count) => if count == 0 {
            TranslationAction::Finish
        } else {
            TranslationAction::Register(0)
        },
        TranslationEvent::Registered { index, count } => if index + 1 < count {
            TranslationAction::Register((index + 1) as usize)
        } else {
            TranslationAction::Finish
        },
    }
}

/// The instructions that get a callback from `action` on, in a block of `count`
/// instructions.
pub open spec fn registered_from(
    parameters: Parameters,
    action: TranslationAction,
    count: usize,
) -> Seq<usize>
    decreases
            (match action {
                TranslationAction::Register(index) => count - index + 1,
                _ => 0,
            }),
{
    match action {
        TranslationAction::Register(index) => if index < count {
            seq![index] + registered_from(
                parameters,
                translation_action(parameters, TranslationEvent::Registered { index, count }),
                count,
            )
        } else {
            seq![index]
        },
        _ => Seq::empty(),
    }
}

/// The plugin that tracks dirty pages.
pub struct DirtyPageTrackerPlugin {}

impl DirtyPageTrackerPlugin {
    /// The message that announces the plugin, if it is enabled.
    pub fn init(parameters: &Parameters) -> (message: Option<String>)
        ensures
            message is Some <==> parameters.enable_dirty_page_tracker,
            message matches Some(text) ==> text@ == "Dirty page tracker plugin initialized."@,
    {
        if !parameters.enable_dirty_page_tracker {
            return None;
        }
        Some("Dirty page tracker plugin initialized.".to_owned())
    }

    /// Handles one event of a translation: every instruction of the block gets
    /// a memory callback, which picks out the stores.
    pub fn on_translation(parameters: &Parameters, event: TranslationEvent) -> (action:
        TranslationAction)
        ensures
            action == translation_action(*parameters, event),
    {
        match event {
            TranslationEvent::Begin => {
                if !parameters.enable_dirty_page_tracker {
                    return TranslationAction::Finish;
                }
                TranslationAction::Count
            },
            TranslationEvent::Counted(count) => {
                if count == 0 {
                    return TranslationAction::Finish;
                }
                TranslationAction::Register(0)
            },
            TranslationEvent::Registered { index, count } => {
                if index < count && index + 1 < count {
                    TranslationAction::Register(index + 1)
                } else {
                    TranslationAction::Finish
                }
            },
        }
    }
}

/// The tracked pages make up the tracked memory.
pub proof fn law_tracked_memory()
    ensures
        MAX_PAGES * PAGE_SIZE == MAX_RAM_SIZE_GB * 1024 * 1024 * 1024,
        PAGE_SIZE == 4096,
        MAX_RAM_SIZE_GB == 64,
{
}

/// The map that does not collect is empty: at the start, after any further
/// write, and after every change of roles.
pub proof fn law_resting_map_is_empty(dirty: DirtyPages, page: int)
    ensures
        DirtyPages::initial().settled(),
        dirty.settled() ==> dirty.marked(page).settled(),
        dirty.swapped().settled(),
{
}

/// Writing a page again changes nothing, the order of two writes does not
/// matter, and a write outside the tracked memory is ignored.
pub proof fn law_marks_form_a_set(dirty: DirtyPages, p: int, q: int)
    ensures
        dirty.marked(p).marked(p) == dirty.marked(p),
        dirty.marked(p).marked(q) == dirty.marked(q).marked(p),
        !is_tracked_page(p) ==> dirty.marked(p) == dirty,
{
    assert(dirty.marked(p).marked(p) =~= dirty.marked(p));
    assert(dirty.marked(p).marked(q) =~= dirty.marked(q).marked(p));
}

/// Writes only add the tracked pages among them to the map that collects.
pub proof fn law_writes_add_pages(dirty: DirtyPages, pages: Seq<int>)
    ensures
        dirty.marked_all(pages).collecting() == dirty.collecting() + tracked_pages(pages),
        dirty.marked_all(pages).resting() == dirty.resting(),
        dirty.marked_all(pages).active == dirty.active,
        dirty.marked_all(pages).period_count == dirty.period_count,
    decreases pages.len(),
{
    if pages.len() == 0 {
        assert(dirty.marked_all(pages).collecting() =~= dirty.collecting() + tracked_pages(pages));
    } else {
        let rest = pages.drop_last();
        law_writes_add_pages(dirty, rest);
        assert forall|page: int| pages.contains(page) implies rest.contains(page) || page
            == pages.last() by {
            let i = choose|i: int| 0 <= i < pages.len() && pages[i] == page;
            if i < rest.len() {
                assert(rest[i] == page);
            }
        }
        assert forall|page: int| rest.contains(page) implies pages.contains(page) by {
            let i = choose|i: int| 0 <= i < rest.len() && rest[i] == page;
            assert(pages[i] == page);
        }
        assert(pages[pages.len() - 1] == pages.last());
        assert(dirty.marked_all(pages).collecting() =~= dirty.collecting() + tracked_pages(pages));
    }
}

/// There are no more tracked pages among `pages` than the memory has or than
/// were named.
pub proof fn law_tracked_pages_are_finite(pages: Seq<int>)
    ensures
        tracked_pages(pages).finite(),
        tracked_pages(pages).len() <= MAX_PAGES,
        tracked_pages(pages).len() <= pages.len(),
{
    let memory = set_int_range(0, MAX_PAGES as int);
    lemma_int_range(0, MAX_PAGES as int);
    assert(tracked_pages(pages).subset_of(memory));
    lemma_len_subset(tracked_pages(pages), memory);
    pages.lemma_cardinality_of_set();
    assert(tracked_pages(pages).subset_of(pages.to_set()));
    lemma_len_subset(tracked_pages(pages), pages.to_set());
}

/// The count of a period is the number of different tracked pages written in it,
/// whatever was written before it; until the next period ends, it stays as it is.
pub proof fn law_period_counts_its_own_pages(before: DirtyPages, pages: Seq<int>, later: Seq<int>)
    requires
        before.settled(),
    ensures
        before.swapped().marked_all(pages).swapped().period_count == tracked_pages(pages).len(),
        before.swapped().marked_all(pages).swapped().marked_all(later).period_count
            == before.swapped().marked_all(pages).swapped().period_count,
{
    law_writes_add_pages(before.swapped(), pages);
    law_writes_add_pages(before.swapped().marked_all(pages).swapped(), later);
    assert(Set::<int>::empty() + tracked_pages(pages) =~= tracked_pages(pages));
}

/// The first period counts the tracked pages written since the start.
pub proof fn law_first_period(pages: Seq<int>)
    ensures
        DirtyPages::initial().marked_all(pages).swapped().period_count == tracked_pages(pages).len(),
{
    law_writes_add_pages(DirtyPages::initial(), pages);
    assert(Set::<int>::empty() + tracked_pages(pages) =~= tracked_pages(pages));
}

/// A write that chose its map before a change of roles and reaches it after is
/// not lost: whatever else is written, it stays out of the next count and is
/// among the pages of the period after that.
pub proof fn law_late_mark_is_not_lost(before: DirtyPages, page: int, pages: Seq<int>)
    requires
        before.settled(),
        before.active == 0 || before.active == 1,
        is_tracked_page(page),
    ensures
        ({
            let late = before.swapped().marked_in(before.active, page).marked_all(pages);
            &&& late.swapped().period_count == tracked_pages(pages).len()
            &&& late.swapped().collecting() == Set::<int>::empty().insert(page)
        }),
{
    let late = before.swapped().marked_in(before.active, page);
    law_writes_add_pages(late, pages);
    assert(Set::<int>::empty() + tracked_pages(pages) =~= tracked_pages(pages));
    assert(late.marked_all(pages).swapped().collecting() =~= Set::<int>::empty().insert(page));
}

/// A page is marked exactly for a store to memory by a measured core while
/// tracking is enabled: only then does the handling of an access get to the
/// physical address.
pub proof fn law_access_reaches_the_address(
    parameters: Parameters,
    vcpu_idx: u32,
    is_store: bool,
    is_device: bool,
    pa: u64,
)
    ensures
        access_action(parameters, vcpu_idx, AccessEvent::Begin) == AccessAction::AskStore
            && access_action(parameters, vcpu_idx, AccessEvent::Store(is_store))
            == AccessAction::AskDevice && access_action(
            parameters,
            vcpu_idx,
            AccessEvent::Device(is_device),
        ) == AccessAction::AskPhysicalAddress <==> is_measured(parameters, vcpu_idx)
            && parameters.enable_dirty_page_tracker && is_store && !is_device,
        access_action(parameters, vcpu_idx, AccessEvent::PhysicalAddress(pa))
            == AccessAction::Finish,
{
}

/// The instructions from `index` on are registered one by one.
proof fn lemma_registered_from(parameters: Parameters, index: usize, count: usize)
    requires
        index < count,
    ensures
        registered_from(parameters, TranslationAction::Register(index), count) == Seq::new(
            (count - index) as nat,
            |i: int| (index + i) as usize,
        ),
    decreases count - index,
{
    if index + 1 < count {
        lemma_registered_from(parameters, (index + 1) as usize, count);
    }
    reveal_with_fuel(registered_from, 2);
    assert(registered_from(parameters, TranslationAction::Register(index), count) =~= Seq::new(
        (count - index) as nat,
        |i: int| (index + i) as usize,
    ));
}

/// Every instruction of a block gets its callback once, in order.
pub proof fn law_every_instruction_is_registered(parameters: Parameters, count: usize)
    ensures
        registered_from(
            parameters,
            translation_action(parameters, TranslationEvent::Counted(count)),
            count,
        ) == Seq::new(count as nat, |i: int| i as usize),
{
    if count > 0 {
        lemma_registered_from(parameters, 0, count);
    }
    assert(registered_from(
        parameters,
        translation_action(parameters, TranslationEvent::Counted(count)),
        count,
    ) =~= Seq::new(count as nat, |i: int| i as usize));
}

/// A write to a page of the tracked memory adds this page and no other to the
/// pages that the running period has collected, wherever in the memory it lies. A
/// write beyond it changes nothing.
pub proof fn law_every_page_of_the_memory_is_marked(dirty: DirtyPages, page: int)
    ensures
        0 <= page < MAX_PAGES ==> dirty.marked(page).collecting() == dirty.collecting().insert(
            page,
        ),
        page < 0 || page >= MAX_PAGES ==> dirty.marked(page) == dirty,
        dirty.marked(page).resting() == dirty.resting(),
        dirty.marked(page).active == dirty.active,
        dirty.marked(page).period_count == dirty.period_count,
{
}

/// The byte of a written page becomes 0xFF, wherever in the memory it lies, and
/// the other bytes keep their values.
pub proof fn law_every_page_has_its_byte(bytes: Seq<u8>, page: int, other: int)
    requires
        bytes.len() == MAX_PAGES,
        0 <= other < MAX_PAGES,
    ensures
        marked_bytes(bytes, page).len() == MAX_PAGES,
        marked_bytes(bytes, page)[other] == if other == page {
            0xFFu8
        } else {
            bytes[other]
        },
        clear_map().len() == MAX_PAGES,
        clear_map()[other] == 0,
{
}

/// A page counts as written if it lies below the end of the tracked memory and
/// stands among the pages that were written.
pub proof fn law_tracked_pages_are_those_written(pages: Seq<int>, page: int)
    ensures
        tracked_pages(pages).contains(page) <==> 0 <= page < MAX_PAGES && exists|i: int|
            0 <= i < pages.len() && #[trigger] pages[i] == page,
{
}

/// A map holds a page as dirty exactly if its byte is not 0.
pub proof fn law_dirty_pages_have_bytes(bytes: Seq<u8>, page: int)
    ensures
        dirty_pages(bytes).contains(page) <==> 0 <= page < bytes.len() && bytes[page] != 0,
{
}

/// The end of a period counts what was collected, starts the next one with what
/// the other map holds, and leaves nothing in the map that was counted.
pub proof fn law_end_of_period(dirty: DirtyPages)
    requires
        dirty.active == 0 || dirty.active == 1,
    ensures
        dirty.swapped().period_count == dirty.collecting().len(),
        dirty.swapped().collecting() == dirty.resting(),
        dirty.swapped().resting() == Set::<int>::empty(),
        dirty.swapped().active == 1 - dirty.active,
        DirtyPages::initial().collecting() == Set::<int>::empty(),
        DirtyPages::initial().resting() == Set::<int>::empty(),
        DirtyPages::initial().period_count == 0,
{
}

/// Writes one after the other are the same as all of them together, and one
/// write is a list of one.
pub proof fn law_writes_after_each_other(dirty: DirtyPages, first: Seq<int>, next: Seq<int>)
    ensures
        dirty.marked_all(first + next) == dirty.marked_all(first).marked_all(next),
        first.len() == 0 ==> dirty.marked_all(first) == dirty,
        first.len() == 1 ==> dirty.marked_all(first) == dirty.marked(first[0]),
    decreases next.len(),
{
    if first.len() == 1 {
        assert(dirty.marked_all(first.drop_last()) == dirty);
    }
    if next.len() == 0 {
        assert(first + next =~= first);
    } else {
        law_writes_after_each_other(dirty, first, next.drop_last());
        assert((first + next).drop_last() =~= first + next.drop_last());
    }
}

/// The events of one memory access, from `event` on, when every question is
/// answered as given: at most `rounds` of them.
pub open spec fn access_events(
    parameters: Parameters,
    vcpu_idx: u32,
    is_store: bool,
    is_device: bool,
    pa: u64,
    event: AccessEvent,
    rounds: nat,
) -> Seq<AccessEvent>
    decreases rounds,
{
    if rounds == 0 {
        Seq::empty()
    } else {
        let left = (rounds - 1) as nat;
        seq![event] + match access_action(parameters, vcpu_idx, event) {
            AccessAction::Finish => Seq::empty(),
            AccessAction::AskStore => access_events(
                parameters,
                vcpu_idx,
                is_store,
                is_device,
                pa,
                AccessEvent::Store(is_store),
                left,
            ),
            AccessAction::AskDevice => access_events(
                parameters,
                vcpu_idx,
                is_store,
                is_device,
                pa,
                AccessEvent::Device(is_device),
                left,
            ),
            AccessAction::AskPhysicalAddress => access_events(
                parameters,
                vcpu_idx,
                is_store,
                is_device,
                pa,
                AccessEvent::PhysicalAddress(pa),
                left,
            ),
        }
    }
}

/// An access is followed to its physical address exactly if tracking is enabled,
/// the core is measured, the access is a store, and it does not go to a device.
/// Where only half of the cores are measured, a core is if at least twice as many
/// cores exist as there are up to it. Each question is asked only where the
/// answers before it leave the outcome open, and every access comes to its end.
pub proof fn law_course_of_an_access(
    parameters: Parameters,
    vcpu_idx: u32,
    is_store: bool,
    is_device: bool,
    pa: u64,
    rounds: nat,
)
    requires
        rounds >= 4,
    ensures
        ({
            let events = access_events(
                parameters,
                vcpu_idx,
                is_store,
                is_device,
                pa,
                AccessEvent::Begin,
                rounds,
            );
            let followed = parameters.enable_dirty_page_tracker && (
            parameters.measure_half_of_cores ==> 2 * (vcpu_idx + 1) <= parameters.core_count);
            &&& !followed ==> events == seq![AccessEvent::Begin]
            &&& followed && !is_store ==> events == seq![
                AccessEvent::Begin,
                AccessEvent::Store(false),
            ]
            &&& followed && is_store && is_device ==> events == seq![
                AccessEvent::Begin,
                AccessEvent::Store(true),
                AccessEvent::Device(true),
            ]
            &&& followed && is_store && !is_device ==> events == seq![
                AccessEvent::Begin,
                AccessEvent::Store(true),
                AccessEvent::Device(false),
                AccessEvent::PhysicalAddress(pa),
            ]
        }),
{
    reveal_with_fuel(access_events, 5);
    let events = access_events(
        parameters,
        vcpu_idx,
        is_store,
        is_device,
        pa,
        AccessEvent::Begin,
        rounds,
    );
    let followed = parameters.enable_dirty_page_tracker && (parameters.measure_half_of_cores ==> 2
        * (vcpu_idx + 1) <= parameters.core_count);
    if !followed {
        assert(events =~= seq![AccessEvent::Begin]);
    } else if !is_store {
        assert(events =~= seq![AccessEvent::Begin, AccessEvent::Store(false)]);
    } else if is_device {
        assert(events =~= seq![
            AccessEvent::Begin,
            AccessEvent::Store(true),
            AccessEvent::Device(true),
        ]);
    } else {
        assert(events =~= seq![
            AccessEvent::Begin,
            AccessEvent::Store(true),
            AccessEvent::Device(false),
            AccessEvent::PhysicalAddress(pa),
        ]);
    }
}

/// The instructions that get a callback while a block of `count` instructions is
/// handled, from `action` on, when every action is carried out: at most `rounds`
/// actions.
pub open spec fn registered_in_block(
    parameters: Parameters,
    action: TranslationAction,
    count: usize,
    rounds: nat,
) -> Seq<usize>
    decreases rounds,
{
    if rounds == 0 {
        Seq::empty()
    } else {
        let left = (rounds - 1) as nat;
        match action {
            TranslationAction::Finish => Seq::empty(),
            TranslationAction::Count => registered_in_block(
                parameters,
                translation_action(parameters, TranslationEvent::Counted(count)),
                count,
                left,
            ),
            TranslationAction::Register(index) => seq![index] + registered_in_block(
                parameters,
                translation_action(parameters, TranslationEvent::Registered { index, count }),
                count,
                left,
            ),
        }
    }
}

/// From instruction `index` on, the instructions up to the end are registered.
proof fn lemma_registered_in_block(
    parameters: Parameters,
    index: usize,
    count: usize,
    rounds: nat,
)
    requires
        index < count,
        rounds > count - index,
    ensures
        registered_in_block(parameters, TranslationAction::Register(index), count, rounds)
            == Seq::new((count - index) as nat, |i: int| (index + i) as usize),
    decreases count - index,
{
    let left = (rounds - 1) as nat;
    let next = translation_action(parameters, TranslationEvent::Registered { index, count });
    if index + 1 < count {
        lemma_registered_in_block(parameters, (index + 1) as usize, count, left);
    } else {
        assert(registered_in_block(parameters, next, count, left) =~= Seq::<usize>::empty());
    }
    assert(registered_in_block(parameters, TranslationAction::Register(index), count, rounds)
        =~= Seq::new((count - index) as nat, |i: int| (index + i) as usize));
}

/// From the moment a block was translated, every one of its instructions gets a
/// callback, once and in order, whatever the other parameters are, if tracking is
/// enabled. None gets one if it is not.
pub proof fn law_translated_block_is_registered(
    parameters: Parameters,
    count: usize,
    rounds: nat,
)
    requires
        rounds >= count + 2,
    ensures
        parameters.enable_dirty_page_tracker ==> registered_in_block(
            parameters,
            translation_action(parameters, TranslationEvent::Begin),
            count,
            rounds,
        ) == Seq::new(count as nat, |i: int| i as usize),
        !parameters.enable_dirty_page_tracker ==> registered_in_block(
            parameters,
            translation_action(parameters, TranslationEvent::Begin),
            count,
            rounds,
        ) == Seq::<usize>::empty(),
{
    if parameters.enable_dirty_page_tracker {
        let left = (rounds - 1) as nat;
        let next = translation_action(parameters, TranslationEvent::Counted(count));
        if count > 0 {
            lemma_registered_in_block(parameters, 0, count, left);
        } else {
            assert(registered_in_block(parameters, next, count, left) =~= Seq::<usize>::empty());
        }
        assert(registered_in_block(parameters, next, count, left) =~= Seq::new(
            count as nat,
            |i: int| i as usize,
        ));
    }
}

} // verus!
