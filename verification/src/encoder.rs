//! The external-encoder contract. Once every frame file exists, an
//! external encoding process may be invoked over them; this module
//! pins down the exact argument list handed to it. Probing for the
//! process and running it is the I/O shell's work, and an absent
//! encoder never fails a render: the frame directory itself is the
//! deliverable then.

use vstd::prelude::*;
use vstd::string::StringExecFns;

use crate::digits::{dec_chars, dec_string};

verus! {

/// Builds the argument lists of the encoder invocation.
pub struct VideoEncoder;

impl VideoEncoder {
    /// The documented argument list: frame rate, input frame pattern,
    /// output size as `<width>x<height>`, output path — in exactly
    /// this order, one flag before each value.
    pub fn command_args(pattern: &str, output: &str, fps: u32, width: u32, height: u32) -> (r:
        Vec<String>)
        ensures
            r@.len() == 7,
            r@[0]@ == "-framerate"@,
            r@[1]@ == dec_chars(fps as int),
            r@[2]@ == "-i"@,
            r@[3]@ == pattern@,
            r@[4]@ == "-s"@,
            r@[5]@ == dec_chars(width as int) + "x"@ + dec_chars(height as int),
            r@[6]@ == output@,
    {
        let mut size = dec_string(width as u64);
        size.append("x");
        size.append(dec_string(height as u64).as_str());
        let mut args: Vec<String> = Vec::new();
        args.push("-framerate".to_owned());
        args.push(dec_string(fps as u64));
        args.push("-i".to_owned());
        args.push(pattern.to_owned());
        args.push("-s".to_owned());
        args.push(size);
        args.push(output.to_owned());
        args
    }
}

} // verus!
