//! The per-invocation state: the loaded records, the requested size filter
//! and color, and — once drawn — the chosen quote.

use vstd::prelude::*;

use crate::errors::FortuneError;
use crate::filter::{SizeFilter, size_matches, spec_filter};
use crate::format::{ColorChoice, render, spec_render};
use crate::select::select;

verus! {

/// One invocation's quote state.
pub struct Quote {
    /// The text of the chosen quote; empty until a draw succeeds.
    pub quote: Vec<u8>,
    /// The records loaded from the database.
    pub data: Vec<Vec<u8>>,
    /// The requested size filter.
    pub size: SizeFilter,
    /// The requested color.
    pub color: ColorChoice,
}

impl Quote {
    /// A fresh state over `data`: no quote chosen yet, no filtering, no
    /// color.
    pub fn init(data: Vec<Vec<u8>>) -> (q: Quote)
        ensures
            q.quote@ == Seq::<u8>::empty(),
            q.data == data,
            q.size == SizeFilter::Any,
            q.color == ColorChoice::NoColor,
    {
        Quote { quote: Vec::new(), data, size: SizeFilter::Any, color: ColorChoice::NoColor }
    }

    /// Draw one record, uniformly at random, from the records that satisfy
    /// the size filter, and store it as the chosen quote. Fails, leaving the
    /// state unchanged, exactly when no record satisfies the filter.
    pub fn get_quote(&mut self) -> (r: Result<(), FortuneError>)
        ensures
            final(self).data == old(self).data,
            final(self).size == old(self).size,
            final(self).color == old(self).color,
            match r {
                Ok(()) => spec_filter(old(self).data.deep_view(), old(self).size).contains(
                    final(self).quote@,
                ) && size_matches(old(self).size, final(self).quote@.len()),
                Err(e) => e == FortuneError::EmptySelectionFailure && final(self).quote == old(
                    self,
                ).quote,
            },
            r is Err <==> spec_filter(old(self).data.deep_view(), old(self).size).len() == 0,
    {
        match select(&self.data, self.size) {
            Ok(chosen) => {
                self.quote = chosen;
                Ok(())
            },
            Err(e) => Err(e),
        }
    }

    /// The colorized rendering of the chosen quote, or nothing when no
    /// color was requested.
    pub fn color(&self) -> (r: Option<Vec<u8>>)
        ensures
            match r {
                Some(s) => self.color != ColorChoice::NoColor && s@ == spec_render(
                    self.quote@,
                    self.color,
                ),
                None => self.color == ColorChoice::NoColor,
            },
    {
        match self.color {
            ColorChoice::NoColor => None,
            _ => Some(render(&self.quote, self.color)),
        }
    }

    /// The exact bytes printed for this invocation: draw a quote with
    /// `get_quote`, then render it with the requested color. Fails exactly
    /// when no record satisfies the size filter.
    pub fn output(&mut self) -> (r: Result<Vec<u8>, FortuneError>)
        ensures
            final(self).data == old(self).data,
            final(self).size == old(self).size,
            final(self).color == old(self).color,
            match r {
                Ok(out) => spec_filter(old(self).data.deep_view(), old(self).size).contains(
                    final(self).quote@,
                ) && out@ == spec_render(final(self).quote@, old(self).color),
                Err(e) => e == FortuneError::EmptySelectionFailure,
            },
            r is Err <==> spec_filter(old(self).data.deep_view(), old(self).size).len() == 0,
    {
        match self.get_quote() {
            Ok(()) => {
                match self.color() {
                    Some(colored) => Ok(colored),
                    None => Ok(crate::bytes::clone_bytes(&self.quote)),
                }
            },
            Err(e) => Err(e),
        }
    }
}

} // verus!
