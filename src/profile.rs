//! Choosing the media profile that motion commands act on, and the motion
//! strategy of a device model.

use vstd::prelude::*;

use crate::binding::BindError;
use crate::motion::MotionStrategy;

verus! {

/// The token of the first profile the device lists; a device with no
/// profile cannot be moved.
pub fn first_profile_token(tokens: &Vec<String>) -> (r: Result<String, BindError>)
    ensures
        tokens@.len() == 0 <==> r == Err::<String, BindError>(BindError::NoProfileError),
        tokens@.len() > 0 ==> r is Ok && r->Ok_0@ == tokens@[0]@,
{
    if tokens.len() == 0 {
        Err(BindError::NoProfileError)
    } else {
        Ok(tokens[0].clone())
    }
}

/// The code of `c` with ASCII capitals folded to lower case.
pub open spec fn folded(c: char) -> u32 {
    if 65 <= c as u32 <= 90 {
        (c as u32 + 32) as u32
    } else {
        c as u32
    }
}

/// Whether two texts are equal once ASCII capitals are folded.
pub open spec fn same_ignoring_ascii_case(a: Seq<char>, b: Seq<char>) -> bool {
    a.len() == b.len() && forall|i: int| 0 <= i < a.len() ==> folded(#[trigger] a[i]) == folded(b[i])
}

fn fold_char(c: char) -> (r: u32)
    ensures
        r == folded(c),
{
    let v = c as u32;
    if 65 <= v && v <= 90 {
        v + 32
    } else {
        v
    }
}

/// Whether two texts are equal once ASCII capitals are folded.
pub fn equal_ignoring_ascii_case(a: &str, b: &str) -> (r: bool)
    ensures
        r == same_ignoring_ascii_case(a@, b@),
{
    let n = a.unicode_len();
    if n != b.unicode_len() {
        return false;
    }
    let mut i: usize = 0;
    while i < n
        invariant
            n == a@.len(),
            n == b@.len(),
            i <= n,
            forall|k: int| 0 <= k < i ==> folded(#[trigger] a@[k]) == folded(b@[k]),
        decreases n - i,
    {
        if fold_char(a.get_char(i)) != fold_char(b.get_char(i)) {
            return false;
        }
        i = i + 1;
    }
    true
}

/// Whether `model` names, ignoring ASCII case, one of `continuous_models`.
pub open spec fn listed_model(model: Seq<char>, continuous_models: Seq<String>) -> bool {
    exists|i: int|
        0 <= i < continuous_models.len() && same_ignoring_ascii_case(
            #[trigger] continuous_models[i]@,
            model,
        )
}

/// Device models listed in `continuous_models` (compared without regard to
/// ASCII case) recenter by a timed continuous move; all others, and a device
/// of unknown model, by a relative move.
pub fn select_strategy(model: Option<&str>, continuous_models: &Vec<String>) -> (r: MotionStrategy)
    ensures
        r == MotionStrategy::Continuous <==> match model {
            Some(m) => listed_model(m@, continuous_models@),
            None => false,
        },
{
    if model.is_none() {
        return MotionStrategy::Relative;
    }
    let name: &str = model.unwrap();
    let mut i: usize = 0;
    while i < continuous_models.len()
        invariant
            model == Some(name),
            i <= continuous_models@.len(),
            forall|k: int|
                0 <= k < i ==> !same_ignoring_ascii_case(#[trigger] continuous_models@[k]@, name@),
        decreases continuous_models@.len() - i,
    {
        if equal_ignoring_ascii_case(continuous_models[i].as_str(), name) {
            assert(same_ignoring_ascii_case(continuous_models@[i as int]@, name@));
            return MotionStrategy::Continuous;
        }
        i = i + 1;
    }
    MotionStrategy::Relative
}

} // verus!
