//! Applying a chosen image: the arguments handed to the display tool's
//! set operation, and the reading of its outcome.
//!
//! The tool itself runs outside the library; the library fixes, byte
//! for byte, what is passed to it, and maps what came back to the
//! library's own error type.

use vstd::prelude::*;
use crate::bytes::{copy_bytes, views_of};

verus! {

/// The rotation configuration, fixed for the process lifetime.
#[derive(Debug)]
pub struct RotationConfig {
    /// Seconds between two timer-driven rotations.
    pub interval_in_secs: u64,
    /// The transition type token handed to the display tool.
    pub transition_type: Vec<u8>,
    /// The transition duration in seconds.
    pub transition_duration_secs: u32,
}

/// Why an apply failed: the display tool could not be launched, or it
/// exited with a non-zero status and said why on its standard error.
#[derive(Debug)]
pub enum SetError {
    Launch,
    ToolFailed(Vec<u8>),
}

/// The decimal digits of `n`, most significant first.
pub open spec fn decimal_of(n: nat) -> Seq<u8>
    decreases n,
{
    if n < 10 {
        seq![(48 + n) as u8]
    } else {
        decimal_of(n / 10).push((48 + n % 10) as u8)
    }
}

/// The decimal digits of `n`, as `decimal_of` gives them.
pub fn u32_decimal(n: u32) -> (r: Vec<u8>)
    ensures
        r@ == decimal_of(n as nat),
{
    let mut rev: Vec<u8> = Vec::new();
    let mut k: u32 = n;
    while k >= 10
        invariant
            decimal_of(n as nat) == decimal_of(k as nat) + rev@.reverse(),
        decreases k,
    {
        let ghost pre = rev@;
        rev.push(48 + (k % 10) as u8);
        proof {
            assert(rev@.reverse() =~= seq![(48 + (k as nat) % 10) as u8] + pre.reverse());
            assert(decimal_of((k as nat) / 10) + rev@.reverse() =~= decimal_of(k as nat)
                + pre.reverse());
        }
        k = k / 10;
    }
    let ghost pre = rev@;
    rev.push(48 + k as u8);
    proof {
        assert(rev@.reverse() =~= seq![(48 + (k as nat)) as u8] + pre.reverse());
        assert(decimal_of(k as nat) + pre.reverse() =~= rev@.reverse());
    }
    let mut r: Vec<u8> = Vec::new();
    let mut i: usize = rev.len();
    while i > 0
        invariant
            i <= rev@.len(),
            r@ == rev@.reverse().subrange(0, rev@.len() - i),
        decreases i,
    {
        i = i - 1;
        r.push(rev[i]);
        proof {
            assert(rev@.reverse()[rev@.len() - 1 - i] == rev@[i as int]);
            assert(r@ =~= rev@.reverse().subrange(0, rev@.len() - i));
        }
    }
    proof {
        assert(rev@.reverse().subrange(0, rev@.len() as int) =~= rev@.reverse());
    }
    r
}

/// The token `img`.
pub open spec fn img_token() -> Seq<u8> {
    seq![105u8, 109u8, 103u8]
}

/// The flag `--transition-type`.
pub open spec fn transition_type_flag() -> Seq<u8> {
    seq![
        45u8, 45u8, 116u8, 114u8, 97u8, 110u8, 115u8, 105u8, 116u8, 105u8, 111u8,
        110u8, 45u8, 116u8, 121u8, 112u8, 101u8,
    ]
}

/// The flag `--transition-duration`.
pub open spec fn transition_duration_flag() -> Seq<u8> {
    seq![
        45u8, 45u8, 116u8, 114u8, 97u8, 110u8, 115u8, 105u8, 116u8, 105u8, 111u8,
        110u8, 45u8, 100u8, 117u8, 114u8, 97u8, 116u8, 105u8, 111u8, 110u8,
    ]
}

/// The arguments of the display tool's set operation, after the tool's
/// own name: the `img` token, the transition type, the transition
/// duration in decimal, and the image's path.
pub open spec fn set_args_spec(transition_type: Seq<u8>, duration: nat, image: Seq<u8>) -> Seq<
    Seq<u8>,
> {
    seq![
        img_token(),
        transition_type_flag(),
        transition_type,
        transition_duration_flag(),
        decimal_of(duration),
        image,
    ]
}

/// Build the display tool's set arguments for one image under the
/// given configuration, exactly as `set_args_spec` lays them out.
pub fn set_wallpaper_args(config: &RotationConfig, image: &Vec<u8>) -> (r: Vec<Vec<u8>>)
    ensures
        views_of(r@) == set_args_spec(
            config.transition_type@,
            config.transition_duration_secs as nat,
            image@,
        ),
{
    let img: Vec<u8> = vec![105u8, 109u8, 103u8];
    let type_flag: Vec<u8> = vec![
        45u8, 45u8, 116u8, 114u8, 97u8, 110u8, 115u8, 105u8, 116u8, 105u8, 111u8,
        110u8, 45u8, 116u8, 121u8, 112u8, 101u8,
    ];
    let duration_flag: Vec<u8> = vec![
        45u8, 45u8, 116u8, 114u8, 97u8, 110u8, 115u8, 105u8, 116u8, 105u8, 111u8,
        110u8, 45u8, 100u8, 117u8, 114u8, 97u8, 116u8, 105u8, 111u8, 110u8,
    ];
    let mut r: Vec<Vec<u8>> = Vec::new();
    r.push(img);
    r.push(type_flag);
    r.push(copy_bytes(&config.transition_type));
    r.push(duration_flag);
    r.push(u32_decimal(config.transition_duration_secs));
    r.push(copy_bytes(image));
    proof {
        assert(views_of(r@) =~= set_args_spec(
            config.transition_type@,
            config.transition_duration_secs as nat,
            image@,
        ));
    }
    r
}

/// Read the outcome of one run of the display tool's set operation:
/// a tool that could not be launched fails with `Launch`, a non-zero
/// exit fails with `ToolFailed` carrying the captured standard error,
/// and a clean exit succeeds.
pub fn set_outcome(launched: bool, exit_ok: bool, stderr: Vec<u8>) -> (r: Result<(), SetError>)
    ensures
        !launched ==> (r matches Err(e) && e is Launch),
        launched && !exit_ok ==> (r matches Err(e) && e matches SetError::ToolFailed(s)
            && s@ == stderr@),
        launched && exit_ok ==> r is Ok,
{
    if !launched {
        Err(SetError::Launch)
    } else if !exit_ok {
        Err(SetError::ToolFailed(stderr))
    } else {
        Ok(())
    }
}

} // verus!
