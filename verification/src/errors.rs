//! What went wrong in a build without stopping it.
//!
//! Two kinds of things are recorded: date fields that could not be read, and
//! short references that name no document or more than one. They are
//! gathered during one build, reported at its end, and forgotten when the
//! next build starts.

use vstd::prelude::*;
use crate::text::string_views;

verus! {

/// A short reference that could not be resolved to one document.
#[derive(Debug)]
pub struct Warning {
    /// The file that holds the reference.
    pub file: String,
    /// The name that the reference gives.
    pub reference: String,
    /// Whether the name means more than one document, rather than none.
    pub ambiguous: bool,
}

/// The mathematical value of a [`Warning`].
pub struct WarningView {
    pub file: Seq<char>,
    pub reference: Seq<char>,
    pub ambiguous: bool,
}

impl View for Warning {
    type V = WarningView;

    open spec fn view(&self) -> WarningView {
        WarningView { file: self.file@, reference: self.reference@, ambiguous: self.ambiguous }
    }
}

/// The views of a list of warnings.
pub open spec fn warning_views(warnings: Seq<Warning>) -> Seq<WarningView> {
    warnings.map_values(|w: Warning| w@)
}

/// What went wrong in one build cycle without stopping it.
#[derive(Debug)]
pub struct Errors {
    /// The files whose `date_created` could not be read.
    pub invalid_date_created: Vec<String>,
    /// The files whose `date_updated` could not be read.
    pub invalid_date_updated: Vec<String>,
    /// The short references that name no document or more than one.
    pub warnings: Vec<Warning>,
}

/// Which of the two date fields a line of the report is about.
#[derive(Debug, Clone, Copy, PartialEq, Eq, Structural)]
pub enum DateField {
    Created,
    Updated,
}

/// One line of the report on the errors of a build.
#[derive(Debug)]
pub enum ReportLine {
    /// The heading of the report.
    Heading,
    /// The hint that more is printed when asked for.
    VerboseHint,
    /// How many files hold a date field that could not be read.
    Count { field: DateField, files: usize },
    /// The files themselves.
    Files { field: DateField, paths: Vec<String> },
    /// How many short references could not be resolved to one document.
    References { count: usize },
    /// One of those references.
    Reference { file: String, reference: String, ambiguous: bool },
}

/// The mathematical value of a [`ReportLine`].
pub enum ReportLineView {
    Heading,
    VerboseHint,
    Count { field: DateField, files: nat },
    Files { field: DateField, paths: Seq<Seq<char>> },
    References { count: nat },
    Reference { file: Seq<char>, reference: Seq<char>, ambiguous: bool },
}

impl View for ReportLine {
    type V = ReportLineView;

    open spec fn view(&self) -> ReportLineView {
        match *self {
            ReportLine::Heading => ReportLineView::Heading,
            ReportLine::VerboseHint => ReportLineView::VerboseHint,
            ReportLine::Count { field, files } => ReportLineView::Count {
                field,
                files: files as nat,
            },
            ReportLine::Files { field, paths } => ReportLineView::Files {
                field,
                paths: string_views(paths@),
            },
            ReportLine::References { count } => ReportLineView::References { count: count as nat },
            ReportLine::Reference { file, reference, ambiguous } => ReportLineView::Reference {
                file: file@,
                reference: reference@,
                ambiguous,
            },
        }
    }
}

/// The views of a list of report lines.
pub open spec fn report_views(lines: Seq<ReportLine>) -> Seq<ReportLineView> {
    lines.map_values(|l: ReportLine| l@)
}

/// The lines that report on the files of one date field: none where no file
/// is listed; else their number and, when asked for, the files.
pub open spec fn field_report(field: DateField, paths: Seq<Seq<char>>, verbose: bool) -> Seq<
    ReportLineView,
> {
    if paths.len() == 0 {
        Seq::empty()
    } else if verbose {
        seq![
            ReportLineView::Count { field, files: paths.len() },
            ReportLineView::Files { field, paths },
        ]
    } else {
        seq![ReportLineView::Count { field, files: paths.len() }]
    }
}

/// The line that shows one warning.
pub open spec fn reference_line(w: WarningView) -> ReportLineView {
    ReportLineView::Reference { file: w.file, reference: w.reference, ambiguous: w.ambiguous }
}

/// The lines that report on the short references: none where all were
/// resolved; else their number and, when asked for, each of them.
pub open spec fn reference_report(warnings: Seq<WarningView>, verbose: bool) -> Seq<
    ReportLineView,
> {
    if warnings.len() == 0 {
        Seq::empty()
    } else if verbose {
        seq![ReportLineView::References { count: warnings.len() }] + warnings.map_values(
            |w: WarningView| reference_line(w),
        )
    } else {
        seq![ReportLineView::References { count: warnings.len() }]
    }
}

/// The whole report: the heading, the hint unless everything is printed
/// anyway, then the two date fields and the short references.
pub open spec fn report_of(
    created: Seq<Seq<char>>,
    updated: Seq<Seq<char>>,
    warnings: Seq<WarningView>,
    verbose: bool,
) -> Seq<ReportLineView> {
    let head = if verbose {
        seq![ReportLineView::Heading]
    } else {
        seq![ReportLineView::Heading, ReportLineView::VerboseHint]
    };
    head + field_report(DateField::Created, created, verbose) + field_report(
        DateField::Updated,
        updated,
        verbose,
    ) + reference_report(warnings, verbose)
}

/// A copy of a list of strings.
pub fn clone_strings(v: &Vec<String>) -> (r: Vec<String>)
    ensures
        string_views(r@) == string_views(v@),
{
    let mut out: Vec<String> = Vec::new();
    let mut i: usize = 0;
    while i < v.len()
        invariant
            i <= v.len(),
            string_views(out@) == string_views(v@).take(i as int),
        decreases v.len() - i,
    {
        let s = v[i].clone();
        proof {
            assert(string_views(out@.push(s)) == string_views(out@).push(s@));
            assert(string_views(v@).take(i + 1) == string_views(v@).take(i as int).push(
                v@[i as int]@,
            ));
        }
        out.push(s);
        i += 1;
    }
    assert(string_views(v@).take(v.len() as int) == string_views(v@));
    out
}

impl Errors {
    /// Nothing has gone wrong.
    pub open spec fn is_empty(&self) -> bool {
        &&& self.invalid_date_created@.len() == 0
        &&& self.invalid_date_updated@.len() == 0
        &&& self.warnings@.len() == 0
    }

    pub fn new() -> (r: Errors)
        ensures
            r.is_empty(),
    {
        Errors {
            invalid_date_created: Vec::new(),
            invalid_date_updated: Vec::new(),
            warnings: Vec::new(),
        }
    }

    /// Records a file whose `date_created` could not be read.
    pub fn add_invalid_date_created(&mut self, filepath_str: String)
        ensures
            final(self).invalid_date_created@ == old(self).invalid_date_created@.push(
                filepath_str,
            ),
            final(self).invalid_date_updated == old(self).invalid_date_updated,
            final(self).warnings == old(self).warnings,
    {
        self.invalid_date_created.push(filepath_str);
    }

    /// Records a file whose `date_updated` could not be read.
    pub fn add_invalid_date_updated(&mut self, filepath_str: String)
        ensures
            final(self).invalid_date_updated@ == old(self).invalid_date_updated@.push(
                filepath_str,
            ),
            final(self).invalid_date_created == old(self).invalid_date_created,
            final(self).warnings == old(self).warnings,
    {
        self.invalid_date_updated.push(filepath_str);
    }

    /// Records a short reference that could not be resolved to one document.
    pub fn add_warning(&mut self, warning: Warning)
        ensures
            final(self).warnings@ == old(self).warnings@.push(warning),
            final(self).invalid_date_created == old(self).invalid_date_created,
            final(self).invalid_date_updated == old(self).invalid_date_updated,
    {
        self.warnings.push(warning);
    }

    /// How many validation errors were recorded.
    pub fn count(&self) -> (r: usize)
        requires
            self.invalid_date_created@.len() + self.invalid_date_updated@.len() <= usize::MAX,
        ensures
            r == self.invalid_date_created@.len() + self.invalid_date_updated@.len(),
    {
        self.invalid_date_created.len() + self.invalid_date_updated.len()
    }

    /// The report on what went wrong, line by line, for the caller to print.
    pub fn report_errors(&self, verbose: bool) -> (r: Vec<ReportLine>)
        ensures
            report_views(r@) == report_of(
                string_views(self.invalid_date_created@),
                string_views(self.invalid_date_updated@),
                warning_views(self.warnings@),
                verbose,
            ),
    {
        let mut out: Vec<ReportLine> = Vec::new();
        out.push(ReportLine::Heading);
        if !verbose {
            out.push(ReportLine::VerboseHint);
        }
        if !self.invalid_date_created.is_empty() {
            out.push(
                ReportLine::Count {
                    field: DateField::Created,
                    files: self.invalid_date_created.len(),
                },
            );
            if verbose {
                let paths = clone_strings(&self.invalid_date_created);
                out.push(ReportLine::Files { field: DateField::Created, paths });
            }
        }
        if !self.invalid_date_updated.is_empty() {
            out.push(
                ReportLine::Count {
                    field: DateField::Updated,
                    files: self.invalid_date_updated.len(),
                },
            );
            if verbose {
                let paths = clone_strings(&self.invalid_date_updated);
                out.push(ReportLine::Files { field: DateField::Updated, paths });
            }
        }
        let ghost dates = report_views(out@);
        let ghost all = warning_views(self.warnings@);
        if !self.warnings.is_empty() {
            out.push(ReportLine::References { count: self.warnings.len() });
            if verbose {
                let ghost head = report_views(out@);
                let mut i: usize = 0;
                assert(head =~= dates.push(ReportLineView::References { count: all.len() }));
                assert(all.take(0).map_values(|w: WarningView| reference_line(w)) =~= Seq::<
                    ReportLineView,
                >::empty());
                while i < self.warnings.len()
                    invariant
                        i <= self.warnings.len(),
                        all == warning_views(self.warnings@),
                        report_views(out@) == head + all.take(i as int).map_values(
                            |w: WarningView| reference_line(w),
                        ),
                    decreases self.warnings.len() - i,
                {
                    let w = &self.warnings[i];
                    let line = ReportLine::Reference {
                        file: w.file.clone(),
                        reference: w.reference.clone(),
                        ambiguous: w.ambiguous,
                    };
                    proof {
                        assert(report_views(out@.push(line)) == report_views(out@).push(line@));
                        assert(line@ == reference_line(all[i as int]));
                        assert(all.take(i + 1).map_values(|w: WarningView| reference_line(w))
                            =~= all.take(i as int).map_values(
                            |w: WarningView| reference_line(w),
                        ).push(reference_line(all[i as int])));
                    }
                    out.push(line);
                    i += 1;
                }
                assert(all.take(all.len() as int) == all);
            }
        }
        assert(report_views(out@) =~= report_of(
            string_views(self.invalid_date_created@),
            string_views(self.invalid_date_updated@),
            all,
            verbose,
        ));
        out
    }

    /// Whether any validation error was recorded.
    pub fn has_errors(&self) -> (r: bool)
        ensures
            r == (self.invalid_date_created@.len() > 0 || self.invalid_date_updated@.len() > 0),
    {
        !(self.invalid_date_created.is_empty() && self.invalid_date_updated.is_empty())
    }

    /// Whether any short reference could not be resolved to one document.
    pub fn has_warnings(&self) -> (r: bool)
        ensures
            r == (self.warnings@.len() > 0),
    {
        !self.warnings.is_empty()
    }

    /// Forgets everything that was recorded, at the start of a new build
    /// cycle.
    pub fn clear(&mut self)
        ensures
            final(self).is_empty(),
    {
        self.invalid_date_created.clear();
        self.invalid_date_updated.clear();
        self.warnings.clear();
    }
}

} // verus!
