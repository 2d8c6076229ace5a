//! The `convert` action and test.

use vstd::prelude::*;
use crate::compiler::error::CompileError;
use crate::compiler::state::{CompilerState, Instruction, Test};
use crate::compiler::tokens::{Stream, StringItem};

verus! {

/// A conversion of body parts from one media type to another.
#[derive(Debug)]
pub struct Convert {
    pub from_media_type: StringItem,
    pub to_media_type: StringItem,
    pub transcoding_params: Vec<StringItem>,
    pub is_not: bool,
}

/// The arguments of a conversion: two strings and a string list.
pub struct ConvertArgs {
    pub from_media_type: StringItem,
    pub to_media_type: StringItem,
    pub transcoding_params: Seq<StringItem>,
}

impl Convert {
    /// Whether this is the conversion with the arguments `args`, not negated.
    pub open spec fn has_args(self, args: ConvertArgs) -> bool {
        &&& self.from_media_type == args.from_media_type
        &&& self.to_media_type == args.to_media_type
        &&& self.transcoding_params@ == args.transcoding_params
        &&& !self.is_not
    }
}

/// The arguments of a conversion at the head of the stream.
pub open spec fn convert_args(s: Stream) -> Result<(ConvertArgs, Stream), CompileError> {
    match s.string() {
        Err(e) => Err(e),
        Ok((from_media_type, s1)) => match s1.string() {
            Err(e) => Err(e),
            Ok((to_media_type, s2)) => match s2.strings() {
                Err(e) => Err(e),
                Ok((transcoding_params, s3)) => Ok(
                    (ConvertArgs { from_media_type, to_media_type, transcoding_params }, s3),
                ),
            },
        },
    }
}

impl CompilerState {
    /// Reads the arguments of a conversion.
    fn parse_convert_args(&mut self) -> (r: Result<Convert, CompileError>)
        ensures
            final(self).capabilities == old(self).capabilities,
            final(self).instructions == old(self).instructions,
            match convert_args(old(self).tokens@) {
                Ok((args, rest)) => r is Ok && r->Ok_0.has_args(args) && final(self).tokens@
                    == rest,
                Err(e) => r == Err::<Convert, CompileError>(e),
            },
    {
        let from_media_type = match self.parse_string() {
            Ok(item) => item,
            Err(e) => {
                return Err(e);
            },
        };
        let to_media_type = match self.parse_string() {
            Ok(item) => item,
            Err(e) => {
                return Err(e);
            },
        };
        let transcoding_params = match self.parse_strings() {
            Ok(items) => items,
            Err(e) => {
                return Err(e);
            },
        };
        Ok(Convert { from_media_type, to_media_type, transcoding_params, is_not: false })
    }

    /// Compiles the test `convert`: two media types and the transcoding
    /// parameters.
    pub fn parse_test_convert(&mut self) -> (r: Result<Test, CompileError>)
        ensures
            final(self).capabilities == old(self).capabilities,
            final(self).instructions == old(self).instructions,
            match convert_args(old(self).tokens@) {
                Ok((args, rest)) => {
                    &&& r matches Ok(Test::Convert(c))
                    &&& c.has_args(args)
                    &&& final(self).tokens@ == rest
                },
                Err(e) => r == Err::<Test, CompileError>(e),
            },
    {
        match self.parse_convert_args() {
            Ok(convert) => Ok(Test::Convert(convert)),
            Err(e) => Err(e),
        }
    }

    /// Compiles the action `convert` and adds it to the instructions.
    pub fn parse_convert(&mut self) -> (r: Result<(), CompileError>)
        ensures
            final(self).capabilities == old(self).capabilities,
            match convert_args(old(self).tokens@) {
                Ok((args, rest)) => {
                    &&& r is Ok
                    &&& final(self).tokens@ == rest
                    &&& final(self).instructions@.len() == old(self).instructions@.len() + 1
                    &&& final(self).instructions@.drop_last() == old(self).instructions@
                    &&& final(self).instructions@.last() matches Instruction::Convert(c)
                    &&& c.has_args(args)
                },
                Err(e) => r == Err::<(), CompileError>(e) && final(self).instructions == old(self).instructions,
            },
    {
        match self.parse_convert_args() {
            Ok(convert) => {
                self.instructions.push(Instruction::Convert(convert));
                assert(self.instructions@.drop_last() =~= old(self).instructions@);
                Ok(())
            },
            Err(e) => Err(e),
        }
    }
}

} // verus!
