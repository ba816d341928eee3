//! Errors and warnings collected while a schema is loaded, each tied to a
//! source file and a span of it.
use vstd::prelude::*;

verus! {

/// A half-open byte range of a source file, with the line and column (both
/// counted from 1) of its start and of its end.
#[derive(Clone, Copy, Debug)]
pub struct Span {
    pub start: usize,
    pub end: usize,
    pub start_position: (usize, usize),
    pub end_position: (usize, usize),
}

/// What a diagnostic says, as plain values.
pub struct LogRecord {
    pub span: Span,
    pub message: Seq<char>,
    pub source_id: usize,
    pub source_path: Seq<char>,
}

/// An entry of the diagnostics: an error or a warning.
pub trait DiagnosticsLog: Sized {
    spec fn spec_is_warning(&self) -> bool;

    spec fn spec_record(&self) -> LogRecord;

    fn source_id(&self) -> (r: usize)
        ensures
            r == self.spec_record().source_id,
    ;

    fn span(&self) -> (r: &Span)
        ensures
            *r == self.spec_record().span,
    ;

    fn message(&self) -> (r: &str)
        ensures
            r@ == self.spec_record().message,
    ;

    fn source_path(&self) -> (r: &str)
        ensures
            r@ == self.spec_record().source_path,
    ;

    fn into_warning(self) -> (r: DiagnosticsWarning)
        requires
            self.spec_is_warning(),
        ensures
            r.record() == self.spec_record(),
    ;

    fn into_error(self) -> (r: DiagnosticsError)
        requires
            !self.spec_is_warning(),
        ensures
            r.record() == self.spec_record(),
    ;

    fn is_warning(&self) -> (r: bool)
        ensures
            r == self.spec_is_warning(),
    ;

    fn is_error(&self) -> (r: bool)
        ensures
            r == !self.spec_is_warning(),
    ;
}

/// An error: the schema cannot be used.
#[derive(Debug, Clone)]
pub struct DiagnosticsError {
    span: Span,
    message: String,
    source_id: usize,
    source_path: String,
}

impl DiagnosticsError {
    pub closed spec fn record(&self) -> LogRecord {
        LogRecord {
            span: self.span,
            message: self.message@,
            source_id: self.source_id,
            source_path: self.source_path@,
        }
    }

    pub fn new(span: Span, message: String, source_id: usize, source_path: String) -> (r: Self)
        ensures
            r.record() == (LogRecord { span, message: message@, source_id, source_path: source_path@ }),
    {
        Self { span, message, source_id, source_path }
    }
}

impl DiagnosticsLog for DiagnosticsError {
    open spec fn spec_is_warning(&self) -> bool {
        false
    }

    open spec fn spec_record(&self) -> LogRecord {
        self.record()
    }

    fn source_id(&self) -> (r: usize) {
        self.source_id
    }

    fn span(&self) -> (r: &Span) {
        &self.span
    }

    fn message(&self) -> (r: &str) {
        self.message.as_str()
    }

    fn source_path(&self) -> (r: &str) {
        self.source_path.as_str()
    }

    fn into_warning(self) -> (r: DiagnosticsWarning) {
        DiagnosticsWarning::new(self.span, self.message, self.source_id, self.source_path)
    }

    fn into_error(self) -> (r: DiagnosticsError) {
        self
    }

    fn is_warning(&self) -> (r: bool) {
        false
    }

    fn is_error(&self) -> (r: bool) {
        true
    }
}

/// A warning: reported, but the schema can still be used.
#[derive(Debug, Clone)]
pub struct DiagnosticsWarning {
    span: Span,
    message: String,
    source_id: usize,
    source_path: String,
}

impl DiagnosticsWarning {
    pub closed spec fn record(&self) -> LogRecord {
        LogRecord {
            span: self.span,
            message: self.message@,
            source_id: self.source_id,
            source_path: self.source_path@,
        }
    }

    pub fn new(span: Span, message: String, source_id: usize, source_path: String) -> (r: Self)
        ensures
            r.record() == (LogRecord { span, message: message@, source_id, source_path: source_path@ }),
    {
        Self { span, message, source_id, source_path }
    }
}

impl DiagnosticsLog for DiagnosticsWarning {
    open spec fn spec_is_warning(&self) -> bool {
        true
    }

    open spec fn spec_record(&self) -> LogRecord {
        self.record()
    }

    fn source_id(&self) -> (r: usize) {
        self.source_id
    }

    fn span(&self) -> (r: &Span) {
        &self.span
    }

    fn message(&self) -> (r: &str) {
        self.message.as_str()
    }

    fn source_path(&self) -> (r: &str) {
        self.source_path.as_str()
    }

    fn into_warning(self) -> (r: DiagnosticsWarning) {
        self
    }

    fn into_error(self) -> (r: DiagnosticsError) {
        DiagnosticsError::new(self.span, self.message, self.source_id, self.source_path)
    }

    fn is_warning(&self) -> (r: bool) {
        true
    }

    fn is_error(&self) -> (r: bool) {
        false
    }
}

/// The errors and the warnings of one run, each in the order they were found.
#[derive(Debug)]
pub struct Diagnostics {
    errors: Vec<DiagnosticsError>,
    warnings: Vec<DiagnosticsWarning>,
}

impl Diagnostics {
    pub closed spec fn error_records(&self) -> Seq<LogRecord> {
        self.errors@.map_values(|e: DiagnosticsError| e.record())
    }

    pub closed spec fn warning_records(&self) -> Seq<LogRecord> {
        self.warnings@.map_values(|w: DiagnosticsWarning| w.record())
    }

    pub fn new() -> (r: Diagnostics)
        ensures
            r.error_records() == Seq::<LogRecord>::empty(),
            r.warning_records() == Seq::<LogRecord>::empty(),
    {
        let r = Diagnostics { errors: Vec::new(), warnings: Vec::new() };
        assert(r.error_records() =~= Seq::<LogRecord>::empty());
        assert(r.warning_records() =~= Seq::<LogRecord>::empty());
        r
    }

    pub fn has_errors(&self) -> (r: bool)
        ensures
            r == (self.error_records().len() > 0),
    {
        !self.errors.is_empty()
    }

    pub fn has_warnings(&self) -> (r: bool)
        ensures
            r == (self.warning_records().len() > 0),
    {
        !self.warnings.is_empty()
    }

    pub fn warnings(&self) -> (r: &Vec<DiagnosticsWarning>)
        ensures
            r@.map_values(|w: DiagnosticsWarning| w.record()) == self.warning_records(),
    {
        &self.warnings
    }

    pub fn errors(&self) -> (r: &Vec<DiagnosticsError>)
        ensures
            r@.map_values(|e: DiagnosticsError| e.record()) == self.error_records(),
    {
        &self.errors
    }

    /// Appends the entry to the warnings or to the errors, as it is one or the other.
    pub fn insert<T: DiagnosticsLog>(&mut self, item: T)
        ensures
            item.spec_is_warning() ==> final(self).warning_records() == old(self).warning_records().push(item.spec_record())
                && final(self).error_records() == old(self).error_records(),
            !item.spec_is_warning() ==> final(self).error_records() == old(self).error_records().push(item.spec_record())
                && final(self).warning_records() == old(self).warning_records(),
    {
        let ghost rec = item.spec_record();
        if item.is_warning() {
            let w = item.into_warning();
            self.warnings.push(w);
            assert(self.warning_records() =~= old(self).warning_records().push(rec));
        } else {
            let e = item.into_error();
            self.errors.push(e);
            assert(self.error_records() =~= old(self).error_records().push(rec));
        }
    }

    /// Records that a span of a source could not be parsed.
    pub fn insert_unparsed_rule(&mut self, span: Span, source_id: usize, source_path: String)
        ensures
            final(self).error_records() == old(self).error_records().push(
                LogRecord {
                    span,
                    message: "SyntaxError: Unexpected content."@,
                    source_id,
                    source_path: source_path@,
                },
            ),
            final(self).warning_records() == old(self).warning_records(),
    {
        let message = String::from_str("SyntaxError: Unexpected content.");
        self.insert(DiagnosticsError::new(span, message, source_id, source_path));
    }
}

impl Default for Diagnostics {
    fn default() -> (r: Diagnostics)
        ensures
            r.error_records() == Seq::<LogRecord>::empty(),
            r.warning_records() == Seq::<LogRecord>::empty(),
    {
        Diagnostics::new()
    }
}

} // verus!
