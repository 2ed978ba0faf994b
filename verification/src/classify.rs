//! The feature classifier: a static, total table from encoding identity to
//! the set of CPU features an instruction jointly requires.
//!
//! The table is exhaustively constructed over the decoder's opcode classes,
//! so a classification gap cannot occur: every identity the decoder can
//! produce has an entry, and baseline instructions map to the empty set.
//! Identities whose requirement depends on encoded operands (the `VEX`
//! vector length) are classified from the full identity, not the opcode
//! alone. One entry, the packed bit-clear form, requires the packed-integer
//! baseline extension and the bit-manipulation extension jointly.

use vstd::prelude::*;
use crate::decoder::{Identity, Op};
use crate::feature_set::{FeatureSet, fs_codes};
use crate::features::{FeatureId, spec_code};

verus! {

/// The set of feature codes an instruction with this identity requires.
pub open spec fn spec_features(id: Identity) -> Set<u64> {
    match id.op {
        Op::Nop => Set::empty(),
        Op::Pause => set![spec_code(FeatureId::Sse2)],
        Op::Ret => Set::empty(),
        Op::PushReg => Set::empty(),
        Op::XorRmR => Set::empty(),
        Op::MovImm => Set::empty(),
        Op::IncReg => Set::empty(),
        Op::DecReg => Set::empty(),
        Op::Bsf => Set::empty(),
        Op::Tzcnt => set![spec_code(FeatureId::Bmi1)],
        Op::Movbe => set![spec_code(FeatureId::Movbe)],
        Op::Crc32 => set![spec_code(FeatureId::Sse42)],
        Op::Addps => set![spec_code(FeatureId::Sse)],
        Op::Addpd => set![spec_code(FeatureId::Sse2)],
        Op::Addss => set![spec_code(FeatureId::Sse)],
        Op::Addsd => set![spec_code(FeatureId::Sse2)],
        Op::PxorMmx => set![spec_code(FeatureId::Mmx)],
        Op::Pxor => set![spec_code(FeatureId::Sse2)],
        Op::PandnPacked => set![spec_code(FeatureId::Sse2), spec_code(FeatureId::Bmi1)],
        Op::Vaddps => set![spec_code(FeatureId::Avx)],
        Op::Vaddpd => set![spec_code(FeatureId::Avx)],
        Op::Vaddss => set![spec_code(FeatureId::Avx)],
        Op::Vaddsd => set![spec_code(FeatureId::Avx)],
        Op::Vpxor => if id.wide_vector {
            set![spec_code(FeatureId::Avx2)]
        } else {
            set![spec_code(FeatureId::Avx)]
        },
        Op::Andn => set![spec_code(FeatureId::Bmi1)],
        Op::Bextr => set![spec_code(FeatureId::Bmi1)],
        Op::Shlx => set![spec_code(FeatureId::Bmi2)],
        Op::Sarx => set![spec_code(FeatureId::Bmi2)],
        Op::Shrx => set![spec_code(FeatureId::Bmi2)],
    }
}

/// Map one decoded instruction identity to the feature set it requires.
/// Pure and total: every identity the decoder can produce has an entry.
pub fn classify(id: Identity) -> (r: FeatureSet)
    ensures
        fs_codes(r) =~= spec_features(id),
{
    let mut s = FeatureSet::new();
    match id.op {
        Op::Nop => {},
        Op::Pause => { s.insert_feature(FeatureId::Sse2); },
        Op::Ret => {},
        Op::PushReg => {},
        Op::XorRmR => {},
        Op::MovImm => {},
        Op::IncReg => {},
        Op::DecReg => {},
        Op::Bsf => {},
        Op::Tzcnt => { s.insert_feature(FeatureId::Bmi1); },
        Op::Movbe => { s.insert_feature(FeatureId::Movbe); },
        Op::Crc32 => { s.insert_feature(FeatureId::Sse42); },
        Op::Addps => { s.insert_feature(FeatureId::Sse); },
        Op::Addpd => { s.insert_feature(FeatureId::Sse2); },
        Op::Addss => { s.insert_feature(FeatureId::Sse); },
        Op::Addsd => { s.insert_feature(FeatureId::Sse2); },
        Op::PxorMmx => { s.insert_feature(FeatureId::Mmx); },
        Op::Pxor => { s.insert_feature(FeatureId::Sse2); },
        Op::PandnPacked => {
            s.insert_feature(FeatureId::Sse2);
            s.insert_feature(FeatureId::Bmi1);
        },
        Op::Vaddps => { s.insert_feature(FeatureId::Avx); },
        Op::Vaddpd => { s.insert_feature(FeatureId::Avx); },
        Op::Vaddss => { s.insert_feature(FeatureId::Avx); },
        Op::Vaddsd => { s.insert_feature(FeatureId::Avx); },
        Op::Vpxor => {
            if id.wide_vector {
                s.insert_feature(FeatureId::Avx2);
            } else {
                s.insert_feature(FeatureId::Avx);
            }
        },
        Op::Andn => { s.insert_feature(FeatureId::Bmi1); },
        Op::Bextr => { s.insert_feature(FeatureId::Bmi1); },
        Op::Shlx => { s.insert_feature(FeatureId::Bmi2); },
        Op::Sarx => { s.insert_feature(FeatureId::Bmi2); },
        Op::Shrx => { s.insert_feature(FeatureId::Bmi2); },
    }
    s
}

} // verus!
