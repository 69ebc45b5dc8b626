//! The kinds of event that the simulator counts.
use vstd::prelude::*;
use vstd::string::*;

verus! {

/// A kind of event, counted per core and per privilege mode.
///
/// The order of the variants is the order of the columns in every report.
#[derive(Debug, Clone, Copy, PartialEq, Eq, Structural)]
pub enum EventType {
    /// Instructions executed.
    Instruction,
    /// The core's local target time; set, not accumulated.
    TargetLocalCycle,

    MemoryAccess,
    InstructionAccess,
    DataAccess,

    PrivateICacheMiss,
    PrivateDCacheMiss,
    PrivateCacheMiss,
    PrivateCacheMissDueToPTW,

    /// Fetch misses that involve coherence activity (GetS, GetX).
    PrivateCacheMissTriggerCoherenceDueToFetch,
    /// Read misses that involve coherence activity (GetS, GetX).
    PrivateCacheMissTriggerCoherenceDueToRead,
    /// Write misses that involve coherence activity (GetS, GetX).
    PrivateCacheMissTriggerCoherenceDueToWrite,
    /// Misses that invalidate other copies (GetX).
    PrivateCacheMissTriggerInvalidation,
    /// Invalidations that invalidate other copies (GetX).
    PrivateCacheInvalidation,

    SharedCacheAccess,
    SharedCacheMiss,
    SharedCacheMissDueToPTW,
    SharedCacheMissDueToInstructionFetch,
    SharedCacheMissDueToDataRead,
    SharedCacheMissDueToDataWrite,

    /// Misses caused by the cold start of the shared cache.
    SharedCacheColdMiss,

    /// A line is invalidated by an access with a smaller timestamp.
    PrivateCacheInvalidationCausailityViolation,
    /// A line is downgraded by an access with a smaller timestamp.
    PrivateCacheDowngradeCausalityViolation,
    /// A line of the shared cache is accessed by an access with a smaller timestamp.
    SharedCacheAccessCausalityViolation,
    /// A line of the shared cache is evicted by an access with a smaller timestamp.
    SharedCacheEvictionCausalityViolation,

    TLBMiss,
    TLBMissDueToInstruction,
    TLBMissDueToData,

    TLBAccess,
    TLBAccessDueToInstruction,
    TLBAccessDueToData,

    HugeTLBHit,
    HugeTLBHitDueToInstruction,
    HugeTLBHitDueToData,

    BranchCount,
    BTBMiss,
    RASMiss,
    TageMiss,
    /// Branches that are mispredicted as a whole, which is not the sum of the
    /// counters above: a conditional branch with a wrong direction, or with the
    /// right direction and a wrong target; an indirect branch or a return with a
    /// wrong target.
    BPMiss,

    WaitForInterrupt,
}

impl EventType {
    /// Number of event kinds.
    pub const COUNT: usize = 40;

    /// Position of the kind in declaration order.
    pub open spec fn position(self) -> int {
        self as int
    }

    /// Every kind, in declaration order.
    pub open spec fn all() -> Seq<EventType> {
        seq![
            EventType::Instruction,
            EventType::TargetLocalCycle,
            EventType::MemoryAccess,
            EventType::InstructionAccess,
            EventType::DataAccess,
            EventType::PrivateICacheMiss,
            EventType::PrivateDCacheMiss,
            EventType::PrivateCacheMiss,
            EventType::PrivateCacheMissDueToPTW,
            EventType::PrivateCacheMissTriggerCoherenceDueToFetch,
            EventType::PrivateCacheMissTriggerCoherenceDueToRead,
            EventType::PrivateCacheMissTriggerCoherenceDueToWrite,
            EventType::PrivateCacheMissTriggerInvalidation,
            EventType::PrivateCacheInvalidation,
            EventType::SharedCacheAccess,
            EventType::SharedCacheMiss,
            EventType::SharedCacheMissDueToPTW,
            EventType::SharedCacheMissDueToInstructionFetch,
            EventType::SharedCacheMissDueToDataRead,
            EventType::SharedCacheMissDueToDataWrite,
            EventType::SharedCacheColdMiss,
            EventType::PrivateCacheInvalidationCausailityViolation,
            EventType::PrivateCacheDowngradeCausalityViolation,
            EventType::SharedCacheAccessCausalityViolation,
            EventType::SharedCacheEvictionCausalityViolation,
            EventType::TLBMiss,
            EventType::TLBMissDueToInstruction,
            EventType::TLBMissDueToData,
            EventType::TLBAccess,
            EventType::TLBAccessDueToInstruction,
            EventType::TLBAccessDueToData,
            EventType::HugeTLBHit,
            EventType::HugeTLBHitDueToInstruction,
            EventType::HugeTLBHitDueToData,
            EventType::BranchCount,
            EventType::BTBMiss,
            EventType::RASMiss,
            EventType::TageMiss,
            EventType::BPMiss,
            EventType::WaitForInterrupt,
        ]
    }

    /// The name under which the kind is reported: that of its variant.
    pub open spec fn name(self) -> Seq<char> {
        match self {
            EventType::Instruction => "Instruction"@,
            EventType::TargetLocalCycle => "TargetLocalCycle"@,
            EventType::MemoryAccess => "MemoryAccess"@,
            EventType::InstructionAccess => "InstructionAccess"@,
            EventType::DataAccess => "DataAccess"@,
            EventType::PrivateICacheMiss => "PrivateICacheMiss"@,
            EventType::PrivateDCacheMiss => "PrivateDCacheMiss"@,
            EventType::PrivateCacheMiss => "PrivateCacheMiss"@,
            EventType::PrivateCacheMissDueToPTW => "PrivateCacheMissDueToPTW"@,
            EventType::PrivateCacheMissTriggerCoherenceDueToFetch => "PrivateCacheMissTriggerCoherenceDueToFetch"@,
            EventType::PrivateCacheMissTriggerCoherenceDueToRead => "PrivateCacheMissTriggerCoherenceDueToRead"@,
            EventType::PrivateCacheMissTriggerCoherenceDueToWrite => "PrivateCacheMissTriggerCoherenceDueToWrite"@,
            EventType::PrivateCacheMissTriggerInvalidation => "PrivateCacheMissTriggerInvalidation"@,
            EventType::PrivateCacheInvalidation => "PrivateCacheInvalidation"@,
            EventType::SharedCacheAccess => "SharedCacheAccess"@,
            EventType::SharedCacheMiss => "SharedCacheMiss"@,
            EventType::SharedCacheMissDueToPTW => "SharedCacheMissDueToPTW"@,
            EventType::SharedCacheMissDueToInstructionFetch => "SharedCacheMissDueToInstructionFetch"@,
            EventType::SharedCacheMissDueToDataRead => "SharedCacheMissDueToDataRead"@,
            EventType::SharedCacheMissDueToDataWrite => "SharedCacheMissDueToDataWrite"@,
            EventType::SharedCacheColdMiss => "SharedCacheColdMiss"@,
            EventType::PrivateCacheInvalidationCausailityViolation => "PrivateCacheInvalidationCausailityViolation"@,
            EventType::PrivateCacheDowngradeCausalityViolation => "PrivateCacheDowngradeCausalityViolation"@,
            EventType::SharedCacheAccessCausalityViolation => "SharedCacheAccessCausalityViolation"@,
            EventType::SharedCacheEvictionCausalityViolation => "SharedCacheEvictionCausalityViolation"@,
            EventType::TLBMiss => "TLBMiss"@,
            EventType::TLBMissDueToInstruction => "TLBMissDueToInstruction"@,
            EventType::TLBMissDueToData => "TLBMissDueToData"@,
            EventType::TLBAccess => "TLBAccess"@,
            EventType::TLBAccessDueToInstruction => "TLBAccessDueToInstruction"@,
            EventType::TLBAccessDueToData => "TLBAccessDueToData"@,
            EventType::HugeTLBHit => "HugeTLBHit"@,
            EventType::HugeTLBHitDueToInstruction => "HugeTLBHitDueToInstruction"@,
            EventType::HugeTLBHitDueToData => "HugeTLBHitDueToData"@,
            EventType::BranchCount => "BranchCount"@,
            EventType::BTBMiss => "BTBMiss"@,
            EventType::RASMiss => "RASMiss"@,
            EventType::TageMiss => "TageMiss"@,
            EventType::BPMiss => "BPMiss"@,
            EventType::WaitForInterrupt => "WaitForInterrupt"@,
        }
    }

    /// Position of the kind in declaration order.
    pub fn index(self) -> (i: usize)
        ensures
            i == self.position(),
            i < Self::COUNT,
    {
        self as usize
    }

    /// Every kind, in declaration order.
    pub fn iter() -> (events: Vec<EventType>)
        ensures
            events@ == Self::all(),
    {
        vec![
            EventType::Instruction,
            EventType::TargetLocalCycle,
            EventType::MemoryAccess,
            EventType::InstructionAccess,
            EventType::DataAccess,
            EventType::PrivateICacheMiss,
            EventType::PrivateDCacheMiss,
            EventType::PrivateCacheMiss,
            EventType::PrivateCacheMissDueToPTW,
            EventType::PrivateCacheMissTriggerCoherenceDueToFetch,
            EventType::PrivateCacheMissTriggerCoherenceDueToRead,
            EventType::PrivateCacheMissTriggerCoherenceDueToWrite,
            EventType::PrivateCacheMissTriggerInvalidation,
            EventType::PrivateCacheInvalidation,
            EventType::SharedCacheAccess,
            EventType::SharedCacheMiss,
            EventType::SharedCacheMissDueToPTW,
            EventType::SharedCacheMissDueToInstructionFetch,
            EventType::SharedCacheMissDueToDataRead,
            EventType::SharedCacheMissDueToDataWrite,
            EventType::SharedCacheColdMiss,
            EventType::PrivateCacheInvalidationCausailityViolation,
            EventType::PrivateCacheDowngradeCausalityViolation,
            EventType::SharedCacheAccessCausalityViolation,
            EventType::SharedCacheEvictionCausalityViolation,
            EventType::TLBMiss,
            EventType::TLBMissDueToInstruction,
            EventType::TLBMissDueToData,
            EventType::TLBAccess,
            EventType::TLBAccessDueToInstruction,
            EventType::TLBAccessDueToData,
            EventType::HugeTLBHit,
            EventType::HugeTLBHitDueToInstruction,
            EventType::HugeTLBHitDueToData,
            EventType::BranchCount,
            EventType::BTBMiss,
            EventType::RASMiss,
            EventType::TageMiss,
            EventType::BPMiss,
            EventType::WaitForInterrupt,
        ]
    }

    /// The name of the kind.
    pub fn to_string(self) -> (s: String)
        ensures
            s@ == self.name(),
    {
        let name = match self {
            EventType::Instruction => "Instruction",
            EventType::TargetLocalCycle => "TargetLocalCycle",
            EventType::MemoryAccess => "MemoryAccess",
            EventType::InstructionAccess => "InstructionAccess",
            EventType::DataAccess => "DataAccess",
            EventType::PrivateICacheMiss => "PrivateICacheMiss",
            EventType::PrivateDCacheMiss => "PrivateDCacheMiss",
            EventType::PrivateCacheMiss => "PrivateCacheMiss",
            EventType::PrivateCacheMissDueToPTW => "PrivateCacheMissDueToPTW",
            EventType::PrivateCacheMissTriggerCoherenceDueToFetch => "PrivateCacheMissTriggerCoherenceDueToFetch",
            EventType::PrivateCacheMissTriggerCoherenceDueToRead => "PrivateCacheMissTriggerCoherenceDueToRead",
            EventType::PrivateCacheMissTriggerCoherenceDueToWrite => "PrivateCacheMissTriggerCoherenceDueToWrite",
            EventType::PrivateCacheMissTriggerInvalidation => "PrivateCacheMissTriggerInvalidation",
            EventType::PrivateCacheInvalidation => "PrivateCacheInvalidation",
            EventType::SharedCacheAccess => "SharedCacheAccess",
            EventType::SharedCacheMiss => "SharedCacheMiss",
            EventType::SharedCacheMissDueToPTW => "SharedCacheMissDueToPTW",
            EventType::SharedCacheMissDueToInstructionFetch => "SharedCacheMissDueToInstructionFetch",
            EventType::SharedCacheMissDueToDataRead => "SharedCacheMissDueToDataRead",
            EventType::SharedCacheMissDueToDataWrite => "SharedCacheMissDueToDataWrite",
            EventType::SharedCacheColdMiss => "SharedCacheColdMiss",
            EventType::PrivateCacheInvalidationCausailityViolation => "PrivateCacheInvalidationCausailityViolation",
            EventType::PrivateCacheDowngradeCausalityViolation => "PrivateCacheDowngradeCausalityViolation",
            EventType::SharedCacheAccessCausalityViolation => "SharedCacheAccessCausalityViolation",
            EventType::SharedCacheEvictionCausalityViolation => "SharedCacheEvictionCausalityViolation",
            EventType::TLBMiss => "TLBMiss",
            EventType::TLBMissDueToInstruction => "TLBMissDueToInstruction",
            EventType::TLBMissDueToData => "TLBMissDueToData",
            EventType::TLBAccess => "TLBAccess",
            EventType::TLBAccessDueToInstruction => "TLBAccessDueToInstruction",
            EventType::TLBAccessDueToData => "TLBAccessDueToData",
            EventType::HugeTLBHit => "HugeTLBHit",
            EventType::HugeTLBHitDueToInstruction => "HugeTLBHitDueToInstruction",
            EventType::HugeTLBHitDueToData => "HugeTLBHitDueToData",
            EventType::BranchCount => "BranchCount",
            EventType::BTBMiss => "BTBMiss",
            EventType::RASMiss => "RASMiss",
            EventType::TageMiss => "TageMiss",
            EventType::BPMiss => "BPMiss",
            EventType::WaitForInterrupt => "WaitForInterrupt",
        };
        name.to_owned()
    }
}

/// The kinds are numbered without gaps: each kind stands in [`EventType::all`]
/// at its own position, and nothing else stands there.
pub proof fn law_positions_number_the_kinds(event: EventType, i: int)
    ensures
        EventType::all().len() == EventType::COUNT,
        0 <= event.position() < EventType::COUNT,
        EventType::all()[event.position()] == event,
        0 <= i < EventType::COUNT ==> EventType::all()[i].position() == i,
{
}

/// Names are made of letters alone.
pub proof fn law_names_are_letters(event: EventType)
    ensures
        forall|i: int|
            0 <= i < event.name().len() ==> {
                ||| 'A' <= #[trigger] event.name()[i] <= 'Z'
                ||| 'a' <= event.name()[i] <= 'z'
            },
{
    match event {
        EventType::Instruction => {
            reveal_strlit("Instruction");
        },
        EventType::TargetLocalCycle => {
            reveal_strlit("TargetLocalCycle");
        },
        EventType::MemoryAccess => {
            reveal_strlit("MemoryAccess");
        },
        EventType::InstructionAccess => {
            reveal_strlit("InstructionAccess");
        },
        EventType::DataAccess => {
            reveal_strlit("DataAccess");
        },
        EventType::PrivateICacheMiss => {
            reveal_strlit("PrivateICacheMiss");
        },
        EventType::PrivateDCacheMiss => {
            reveal_strlit("PrivateDCacheMiss");
        },
        EventType::PrivateCacheMiss => {
            reveal_strlit("PrivateCacheMiss");
        },
        EventType::PrivateCacheMissDueToPTW => {
            reveal_strlit("PrivateCacheMissDueToPTW");
        },
        EventType::PrivateCacheMissTriggerCoherenceDueToFetch => {
            reveal_strlit("PrivateCacheMissTriggerCoherenceDueToFetch");
        },
        EventType::PrivateCacheMissTriggerCoherenceDueToRead => {
            reveal_strlit("PrivateCacheMissTriggerCoherenceDueToRead");
        },
        EventType::PrivateCacheMissTriggerCoherenceDueToWrite => {
            reveal_strlit("PrivateCacheMissTriggerCoherenceDueToWrite");
        },
        EventType::PrivateCacheMissTriggerInvalidation => {
            reveal_strlit("PrivateCacheMissTriggerInvalidation");
        },
        EventType::PrivateCacheInvalidation => {
            reveal_strlit("PrivateCacheInvalidation");
        },
        EventType::SharedCacheAccess => {
            reveal_strlit("SharedCacheAccess");
        },
        EventType::SharedCacheMiss => {
            reveal_strlit("SharedCacheMiss");
        },
        EventType::SharedCacheMissDueToPTW => {
            reveal_strlit("SharedCacheMissDueToPTW");
        },
        EventType::SharedCacheMissDueToInstructionFetch => {
            reveal_strlit("SharedCacheMissDueToInstructionFetch");
        },
        EventType::SharedCacheMissDueToDataRead => {
            reveal_strlit("SharedCacheMissDueToDataRead");
        },
        EventType::SharedCacheMissDueToDataWrite => {
            reveal_strlit("SharedCacheMissDueToDataWrite");
        },
        EventType::SharedCacheColdMiss => {
            reveal_strlit("SharedCacheColdMiss");
        },
        EventType::PrivateCacheInvalidationCausailityViolation => {
            reveal_strlit("PrivateCacheInvalidationCausailityViolation");
        },
        EventType::PrivateCacheDowngradeCausalityViolation => {
            reveal_strlit("PrivateCacheDowngradeCausalityViolation");
        },
        EventType::SharedCacheAccessCausalityViolation => {
            reveal_strlit("SharedCacheAccessCausalityViolation");
        },
        EventType::SharedCacheEvictionCausalityViolation => {
            reveal_strlit("SharedCacheEvictionCausalityViolation");
        },
        EventType::TLBMiss => {
            reveal_strlit("TLBMiss");
        },
        EventType::TLBMissDueToInstruction => {
            reveal_strlit("TLBMissDueToInstruction");
        },
        EventType::TLBMissDueToData => {
            reveal_strlit("TLBMissDueToData");
        },
        EventType::TLBAccess => {
            reveal_strlit("TLBAccess");
        },
        EventType::TLBAccessDueToInstruction => {
            reveal_strlit("TLBAccessDueToInstruction");
        },
        EventType::TLBAccessDueToData => {
            reveal_strlit("TLBAccessDueToData");
        },
        EventType::HugeTLBHit => {
            reveal_strlit("HugeTLBHit");
        },
        EventType::HugeTLBHitDueToInstruction => {
            reveal_strlit("HugeTLBHitDueToInstruction");
        },
        EventType::HugeTLBHitDueToData => {
            reveal_strlit("HugeTLBHitDueToData");
        },
        EventType::BranchCount => {
            reveal_strlit("BranchCount");
        },
        EventType::BTBMiss => {
            reveal_strlit("BTBMiss");
        },
        EventType::RASMiss => {
            reveal_strlit("RASMiss");
        },
        EventType::TageMiss => {
            reveal_strlit("TageMiss");
        },
        EventType::BPMiss => {
            reveal_strlit("BPMiss");
        },
        EventType::WaitForInterrupt => {
            reveal_strlit("WaitForInterrupt");
        },
    }
}

/// Different kinds have different names.
pub proof fn law_names_are_different(a: EventType, b: EventType)
    requires
        a != b,
    ensures
        a.name() != b.name(),
{
    reveal_strlit("Instruction");
    reveal_strlit("TargetLocalCycle");
    reveal_strlit("MemoryAccess");
    reveal_strlit("InstructionAccess");
    reveal_strlit("DataAccess");
    reveal_strlit("PrivateICacheMiss");
    reveal_strlit("PrivateDCacheMiss");
    reveal_strlit("PrivateCacheMiss");
    reveal_strlit("PrivateCacheMissDueToPTW");
    reveal_strlit("PrivateCacheMissTriggerCoherenceDueToFetch");
    reveal_strlit("PrivateCacheMissTriggerCoherenceDueToRead");
    reveal_strlit("PrivateCacheMissTriggerCoherenceDueToWrite");
    reveal_strlit("PrivateCacheMissTriggerInvalidation");
    reveal_strlit("PrivateCacheInvalidation");
    reveal_strlit("SharedCacheAccess");
    reveal_strlit("SharedCacheMiss");
    reveal_strlit("SharedCacheMissDueToPTW");
    reveal_strlit("SharedCacheMissDueToInstructionFetch");
    reveal_strlit("SharedCacheMissDueToDataRead");
    reveal_strlit("SharedCacheMissDueToDataWrite");
    reveal_strlit("SharedCacheColdMiss");
    reveal_strlit("PrivateCacheInvalidationCausailityViolation");
    reveal_strlit("PrivateCacheDowngradeCausalityViolation");
    reveal_strlit("SharedCacheAccessCausalityViolation");
    reveal_strlit("SharedCacheEvictionCausalityViolation");
    reveal_strlit("TLBMiss");
    reveal_strlit("TLBMissDueToInstruction");
    reveal_strlit("TLBMissDueToData");
    reveal_strlit("TLBAccess");
    reveal_strlit("TLBAccessDueToInstruction");
    reveal_strlit("TLBAccessDueToData");
    reveal_strlit("HugeTLBHit");
    reveal_strlit("HugeTLBHitDueToInstruction");
    reveal_strlit("HugeTLBHitDueToData");
    reveal_strlit("BranchCount");
    reveal_strlit("BTBMiss");
    reveal_strlit("RASMiss");
    reveal_strlit("TageMiss");
    reveal_strlit("BPMiss");
    reveal_strlit("WaitForInterrupt");
    // Most names differ in length.
    assert("Instruction"@.len() == 11);
    assert("TargetLocalCycle"@.len() == 16);
    assert("MemoryAccess"@.len() == 12);
    assert("InstructionAccess"@.len() == 17);
    assert("DataAccess"@.len() == 10);
    assert("PrivateICacheMiss"@.len() == 17);
    assert("PrivateDCacheMiss"@.len() == 17);
    assert("PrivateCacheMiss"@.len() == 16);
    assert("PrivateCacheMissDueToPTW"@.len() == 24);
    assert("PrivateCacheMissTriggerCoherenceDueToFetch"@.len() == 42);
    assert("PrivateCacheMissTriggerCoherenceDueToRead"@.len() == 41);
    assert("PrivateCacheMissTriggerCoherenceDueToWrite"@.len() == 42);
    assert("PrivateCacheMissTriggerInvalidation"@.len() == 35);
    assert("PrivateCacheInvalidation"@.len() == 24);
    assert("SharedCacheAccess"@.len() == 17);
    assert("SharedCacheMiss"@.len() == 15);
    assert("SharedCacheMissDueToPTW"@.len() == 23);
    assert("SharedCacheMissDueToInstructionFetch"@.len() == 36);
    assert("SharedCacheMissDueToDataRead"@.len() == 28);
    assert("SharedCacheMissDueToDataWrite"@.len() == 29);
    assert("SharedCacheColdMiss"@.len() == 19);
    assert("PrivateCacheInvalidationCausailityViolation"@.len() == 43);
    assert("PrivateCacheDowngradeCausalityViolation"@.len() == 39);
    assert("SharedCacheAccessCausalityViolation"@.len() == 35);
    assert("SharedCacheEvictionCausalityViolation"@.len() == 37);
    assert("TLBMiss"@.len() == 7);
    assert("TLBMissDueToInstruction"@.len() == 23);
    assert("TLBMissDueToData"@.len() == 16);
    assert("TLBAccess"@.len() == 9);
    assert("TLBAccessDueToInstruction"@.len() == 25);
    assert("TLBAccessDueToData"@.len() == 18);
    assert("HugeTLBHit"@.len() == 10);
    assert("HugeTLBHitDueToInstruction"@.len() == 26);
    assert("HugeTLBHitDueToData"@.len() == 19);
    assert("BranchCount"@.len() == 11);
    assert("BTBMiss"@.len() == 7);
    assert("RASMiss"@.len() == 7);
    assert("TageMiss"@.len() == 8);
    assert("BPMiss"@.len() == 6);
    assert("WaitForInterrupt"@.len() == 16);
    // Names of the same length differ in a letter.
    assert("Instruction"@[0] != "BranchCount"@[0]);
    assert("TargetLocalCycle"@[0] != "PrivateCacheMiss"@[0]);
    assert("TargetLocalCycle"@[1] != "TLBMissDueToData"@[1]);
    assert("TargetLocalCycle"@[0] != "WaitForInterrupt"@[0]);
    assert("PrivateCacheMiss"@[0] != "TLBMissDueToData"@[0]);
    assert("PrivateCacheMiss"@[0] != "WaitForInterrupt"@[0]);
    assert("TLBMissDueToData"@[0] != "WaitForInterrupt"@[0]);
    assert("InstructionAccess"@[0] != "PrivateICacheMiss"@[0]);
    assert("InstructionAccess"@[0] != "PrivateDCacheMiss"@[0]);
    assert("InstructionAccess"@[0] != "SharedCacheAccess"@[0]);
    assert("PrivateICacheMiss"@[7] != "PrivateDCacheMiss"@[7]);
    assert("PrivateICacheMiss"@[0] != "SharedCacheAccess"@[0]);
    assert("PrivateDCacheMiss"@[0] != "SharedCacheAccess"@[0]);
    assert("DataAccess"@[0] != "HugeTLBHit"@[0]);
    assert("PrivateCacheMissDueToPTW"@[12] != "PrivateCacheInvalidation"@[12]);
    assert("PrivateCacheMissTriggerCoherenceDueToFetch"@[37]
        != "PrivateCacheMissTriggerCoherenceDueToWrite"@[37]);
    assert("PrivateCacheMissTriggerInvalidation"@[0] != "SharedCacheAccessCausalityViolation"@[0]);
    assert("SharedCacheMissDueToPTW"@[0] != "TLBMissDueToInstruction"@[0]);
    assert("SharedCacheColdMiss"@[0] != "HugeTLBHitDueToData"@[0]);
    assert("TLBMiss"@[0] != "BTBMiss"@[0]);
    assert("TLBMiss"@[0] != "RASMiss"@[0]);
    assert("BTBMiss"@[0] != "RASMiss"@[0]);
}

/// No kind is named like one of the columns that belong to no kind.
pub proof fn law_names_are_no_other_column(event: EventType)
    ensures
        event.name() != "ts"@,
        event.name() != "core_id"@,
        event.name() != "DirtyPages"@,
{
    law_names_are_letters(event);
    reveal_strlit("ts");
    reveal_strlit("core_id");
    reveal_strlit("DirtyPages");
    assert("ts"@.len() == 2);
    assert("core_id"@[4] == '_');
    assert("DirtyPages"@.len() == 10);
    match event {
        EventType::Instruction => {
            reveal_strlit("Instruction");
            assert("Instruction"@.len() == 11);
        },
        EventType::TargetLocalCycle => {
            reveal_strlit("TargetLocalCycle");
            assert("TargetLocalCycle"@.len() == 16);
        },
        EventType::MemoryAccess => {
            reveal_strlit("MemoryAccess");
            assert("MemoryAccess"@.len() == 12);
        },
        EventType::InstructionAccess => {
            reveal_strlit("InstructionAccess");
            assert("InstructionAccess"@.len() == 17);
        },
        EventType::DataAccess => {
            reveal_strlit("DataAccess");
            assert("DataAccess"@.len() == 10);
            assert("DataAccess"@[1] != "DirtyPages"@[1]);
        },
        EventType::PrivateICacheMiss => {
            reveal_strlit("PrivateICacheMiss");
            assert("PrivateICacheMiss"@.len() == 17);
        },
        EventType::PrivateDCacheMiss => {
            reveal_strlit("PrivateDCacheMiss");
            assert("PrivateDCacheMiss"@.len() == 17);
        },
        EventType::PrivateCacheMiss => {
            reveal_strlit("PrivateCacheMiss");
            assert("PrivateCacheMiss"@.len() == 16);
        },
        EventType::PrivateCacheMissDueToPTW => {
            reveal_strlit("PrivateCacheMissDueToPTW");
            assert("PrivateCacheMissDueToPTW"@.len() == 24);
        },
        EventType::PrivateCacheMissTriggerCoherenceDueToFetch => {
            reveal_strlit("PrivateCacheMissTriggerCoherenceDueToFetch");
            assert("PrivateCacheMissTriggerCoherenceDueToFetch"@.len() == 42);
        },
        EventType::PrivateCacheMissTriggerCoherenceDueToRead => {
            reveal_strlit("PrivateCacheMissTriggerCoherenceDueToRead");
            assert("PrivateCacheMissTriggerCoherenceDueToRead"@.len() == 41);
        },
        EventType::PrivateCacheMissTriggerCoherenceDueToWrite => {
            reveal_strlit("PrivateCacheMissTriggerCoherenceDueToWrite");
            assert("PrivateCacheMissTriggerCoherenceDueToWrite"@.len() == 42);
        },
        EventType::PrivateCacheMissTriggerInvalidation => {
            reveal_strlit("PrivateCacheMissTriggerInvalidation");
            assert("PrivateCacheMissTriggerInvalidation"@.len() == 35);
        },
        EventType::PrivateCacheInvalidation => {
            reveal_strlit("PrivateCacheInvalidation");
            assert("PrivateCacheInvalidation"@.len() == 24);
        },
        EventType::SharedCacheAccess => {
            reveal_strlit("SharedCacheAccess");
            assert("SharedCacheAccess"@.len() == 17);
        },
        EventType::SharedCacheMiss => {
            reveal_strlit("SharedCacheMiss");
            assert("SharedCacheMiss"@.len() == 15);
        },
        EventType::SharedCacheMissDueToPTW => {
            reveal_strlit("SharedCacheMissDueToPTW");
            assert("SharedCacheMissDueToPTW"@.len() == 23);
        },
        EventType::SharedCacheMissDueToInstructionFetch => {
            reveal_strlit("SharedCacheMissDueToInstructionFetch");
            assert("SharedCacheMissDueToInstructionFetch"@.len() == 36);
        },
        EventType::SharedCacheMissDueToDataRead => {
            reveal_strlit("SharedCacheMissDueToDataRead");
            assert("SharedCacheMissDueToDataRead"@.len() == 28);
        },
        EventType::SharedCacheMissDueToDataWrite => {
            reveal_strlit("SharedCacheMissDueToDataWrite");
            assert("SharedCacheMissDueToDataWrite"@.len() == 29);
        },
        EventType::SharedCacheColdMiss => {
            reveal_strlit("SharedCacheColdMiss");
            assert("SharedCacheColdMiss"@.len() == 19);
        },
        EventType::PrivateCacheInvalidationCausailityViolation => {
            reveal_strlit("PrivateCacheInvalidationCausailityViolation");
            assert("PrivateCacheInvalidationCausailityViolation"@.len() == 43);
        },
        EventType::PrivateCacheDowngradeCausalityViolation => {
            reveal_strlit("PrivateCacheDowngradeCausalityViolation");
            assert("PrivateCacheDowngradeCausalityViolation"@.len() == 39);
        },
        EventType::SharedCacheAccessCausalityViolation => {
            reveal_strlit("SharedCacheAccessCausalityViolation");
            assert("SharedCacheAccessCausalityViolation"@.len() == 35);
        },
        EventType::SharedCacheEvictionCausalityViolation => {
            reveal_strlit("SharedCacheEvictionCausalityViolation");
            assert("SharedCacheEvictionCausalityViolation"@.len() == 37);
        },
        EventType::TLBMiss => {
            reveal_strlit("TLBMiss");
            assert("TLBMiss"@.len() == 7);
        },
        EventType::TLBMissDueToInstruction => {
            reveal_strlit("TLBMissDueToInstruction");
            assert("TLBMissDueToInstruction"@.len() == 23);
        },
        EventType::TLBMissDueToData => {
            reveal_strlit("TLBMissDueToData");
            assert("TLBMissDueToData"@.len() == 16);
        },
        EventType::TLBAccess => {
            reveal_strlit("TLBAccess");
            assert("TLBAccess"@.len() == 9);
        },
        EventType::TLBAccessDueToInstruction => {
            reveal_strlit("TLBAccessDueToInstruction");
            assert("TLBAccessDueToInstruction"@.len() == 25);
        },
        EventType::TLBAccessDueToData => {
            reveal_strlit("TLBAccessDueToData");
            assert("TLBAccessDueToData"@.len() == 18);
        },
        EventType::HugeTLBHit => {
            reveal_strlit("HugeTLBHit");
            assert("HugeTLBHit"@.len() == 10);
            assert("HugeTLBHit"@[0] != "DirtyPages"@[0]);
        },
        EventType::HugeTLBHitDueToInstruction => {
            reveal_strlit("HugeTLBHitDueToInstruction");
            assert("HugeTLBHitDueToInstruction"@.len() == 26);
        },
        EventType::HugeTLBHitDueToData => {
            reveal_strlit("HugeTLBHitDueToData");
            assert("HugeTLBHitDueToData"@.len() == 19);
        },
        EventType::BranchCount => {
            reveal_strlit("BranchCount");
            assert("BranchCount"@.len() == 11);
        },
        EventType::BTBMiss => {
            reveal_strlit("BTBMiss");
            assert("BTBMiss"@.len() == 7);
        },
        EventType::RASMiss => {
            reveal_strlit("RASMiss");
            assert("RASMiss"@.len() == 7);
        },
        EventType::TageMiss => {
            reveal_strlit("TageMiss");
            assert("TageMiss"@.len() == 8);
        },
        EventType::BPMiss => {
            reveal_strlit("BPMiss");
            assert("BPMiss"@.len() == 6);
        },
        EventType::WaitForInterrupt => {
            reveal_strlit("WaitForInterrupt");
            assert("WaitForInterrupt"@.len() == 16);
        },
    }
    if event.name() == "core_id"@ {
        assert(event.name()[4] == '_');
    }
}

} // verus!
