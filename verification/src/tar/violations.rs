//! What the parser does with a violation of the tar specifications: fail, record it, or ignore it.
use vstd::prelude::*;

use crate::tar::errors::{ErrorSeverity, TarParserError, TarParserErrorKind};

verus! {

/// Decides whether the parser goes on after a violation of the specifications.
pub trait TarViolationHandler {
    /// Called for every violation. Returns `true` if parsing should ignore the error and go on,
    /// discarding the corrupt part; for a fatal violation the parser stops whatever it returns.
    fn handle(&mut self, error: &TarParserError) -> bool;
}

/// Stops at every violation.
#[derive(Debug, Default)]
pub struct StrictTarViolationHandler;

impl TarViolationHandler for StrictTarViolationHandler {
    fn handle(&mut self, _error: &TarParserError) -> (r: bool)
        ensures
            !r,
    {
        false
    }
}

/// Records every violation and goes on.
#[derive(Debug, Default)]
pub struct AuditTarViolationHandler {
    pub violations: Vec<TarParserError>,
}

impl AuditTarViolationHandler {
    pub fn new() -> (r: Self)
        ensures
            r.violations@.len() == 0,
    {
        AuditTarViolationHandler { violations: Vec::new() }
    }
}

impl TarViolationHandler for AuditTarViolationHandler {
    fn handle(&mut self, error: &TarParserError) -> (r: bool)
        ensures
            r,
            final(self).violations@.len() == old(self).violations@.len() + 1,
            final(self).violations@.take(old(self).violations@.len() as int) == old(self).violations@,
    {
        self.violations.push(error.clone());
        proof {
            assert(self.violations@.take(old(self).violations@.len() as int) =~= old(self).violations@);
        }
        true
    }
}

/// Goes on after every violation.
#[derive(Debug, Default)]
pub struct IgnoreTarViolationHandler;

impl TarViolationHandler for IgnoreTarViolationHandler {
    fn handle(&mut self, _error: &TarParserError) -> (r: bool)
        ensures
            r,
    {
        true
    }
}

/// The recoverable error of a violation.
pub open spec fn violation(kind: TarParserErrorKind) -> TarParserError {
    TarParserError { kind, severity: ErrorSeverity::Recoverable }
}

/// The fatal error of a violation the parser cannot go on after.
pub open spec fn fatal_violation(kind: TarParserErrorKind) -> TarParserError {
    TarParserError { kind, severity: ErrorSeverity::Fatal }
}

/// A violation handler with the ways the parser reports to it.
pub struct VHW<'a, VH: TarViolationHandler>(pub &'a mut VH);

impl<'a, VH: TarViolationHandler> VHW<'a, VH> {
    /// Reports the error of a result, if any: the handler decides whether the parser goes on
    /// without the value (`Ok(None)`) or stops.
    pub fn hpvr<T>(&mut self, operation_result: Result<T, TarParserErrorKind>) -> (r: Result<
        Option<T>,
        TarParserError,
    >)
        ensures
            operation_result matches Ok(v) ==> r == Ok::<Option<T>, TarParserError>(Some(v)),
            operation_result matches Err(k) ==> r == Ok::<Option<T>, TarParserError>(None) || r
                == Err::<Option<T>, TarParserError>(violation(k)),
    {
        match operation_result {
            Ok(v) => Ok(Some(v)),
            Err(kind) => {
                let e = TarParserError::new(kind, ErrorSeverity::Recoverable);
                if self.0.handle(&e) {
                    Ok(None)
                } else {
                    Err(e)
                }
            },
        }
    }

    /// Reports an error: the handler decides whether the parser goes on or stops.
    pub fn hpve(&mut self, error: TarParserErrorKind) -> (r: Result<(), TarParserError>)
        ensures
            r == Ok::<(), TarParserError>(()) || r == Err::<(), TarParserError>(violation(error)),
    {
        let e = TarParserError::new(error, ErrorSeverity::Recoverable);
        if self.0.handle(&e) {
            Ok(())
        } else {
            Err(e)
        }
    }

    /// Reports the error of a result, if any, as fatal, and stops on it whatever the handler says.
    pub fn hfvr<T>(&mut self, operation_result: Result<T, TarParserErrorKind>) -> (r: Result<
        T,
        TarParserError,
    >)
        ensures
            operation_result matches Ok(v) ==> r == Ok::<T, TarParserError>(v),
            operation_result matches Err(k) ==> r == Err::<T, TarParserError>(fatal_violation(k)),
    {
        match operation_result {
            Ok(v) => Ok(v),
            Err(kind) => {
                let e = TarParserError::new(kind, ErrorSeverity::Fatal);
                let _ = self.0.handle(&e);
                Err(e)
            },
        }
    }

    /// Reports an error as fatal and stops on it whatever the handler says.
    pub fn hfve<T>(&mut self, error: TarParserErrorKind) -> (r: Result<T, TarParserError>)
        ensures
            r == Err::<T, TarParserError>(fatal_violation(error)),
    {
        let e = TarParserError::new(error, ErrorSeverity::Fatal);
        let _ = self.0.handle(&e);
        Err(e)
    }
}

} // verus!
