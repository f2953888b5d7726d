//! A processor that reads nothing, for a stage that a composition leaves empty.
use crate::bms::error::{ParseErrorWithRange, ParseWarningWithRange};
use crate::bms::lex::TokenWithRange;
use crate::bms::parse::TokenProcessor;
use crate::bms::prompt::Prompter;
use vstd::prelude::*;

verus! {

/// The processor that collects nothing.
#[derive(Debug, Clone, Copy, PartialEq, Eq, Hash, Structural)]
pub struct IdentityTokenProcessor;

impl<P: Prompter> TokenProcessor<P> for IdentityTokenProcessor {
    type Output = ();

    open spec fn outcome(
        &self,
        tokens: Seq<TokenWithRange>,
        prompter: P,
        r: Result<((), Vec<ParseWarningWithRange>), ParseErrorWithRange>,
    ) -> bool {
        r matches Ok((_, ws)) && ws@.len() == 0
    }

    fn process(&self, tokens: &[TokenWithRange], prompter: &P) -> (r: Result<
        ((), Vec<ParseWarningWithRange>),
        ParseErrorWithRange,
    >)
        ensures
            r matches Ok((_, ws)) && ws@.len() == 0,
    {
        Ok(((), Vec::new()))
    }
}

} // verus!
