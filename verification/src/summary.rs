//! The tally of a batch run over files.

use vstd::prelude::*;

verus! {

/// What a batch run did: how many files and pages went through, and what
/// went wrong with the others.
#[derive(Debug)]
pub struct ProcessingSummary {
    /// The number of files that were processed.
    pub files_processed: usize,
    /// The number of pages that were annotated, over all files.
    pub pages_annotated: usize,
    /// The files that failed, each with its error message.
    pub errors: Vec<(String, String)>,
    /// The files of which some pages failed, each with the numbers of those
    /// pages and their error messages.
    pub partial_success: Vec<(String, Vec<(usize, String)>)>,
}

/// A sum that stays at the largest number where it would pass it.
pub open spec fn capped_sum(a: usize, b: usize) -> usize {
    if a + b <= usize::MAX {
        (a + b) as usize
    } else {
        usize::MAX
    }
}

impl ProcessingSummary {
    /// The tally before any file.
    pub fn new() -> (summary: Self)
        ensures
            summary.files_processed == 0,
            summary.pages_annotated == 0,
            summary.errors@.len() == 0,
            summary.partial_success@.len() == 0,
    {
        ProcessingSummary {
            files_processed: 0,
            pages_annotated: 0,
            errors: Vec::new(),
            partial_success: Vec::new(),
        }
    }

    /// Counts a file that went through with the given number of pages
    /// annotated. Where some of its pages failed, they are noted under the
    /// file's path.
    pub fn record_file(&mut self, path: String, pages: usize, page_errors: Vec<(usize, String)>)
        ensures
            final(self).files_processed == capped_sum(old(self).files_processed, 1),
            final(self).pages_annotated == capped_sum(old(self).pages_annotated, pages),
            final(self).errors@ == old(self).errors@,
            final(self).partial_success@ == if page_errors@.len() == 0 {
                old(self).partial_success@
            } else {
                old(self).partial_success@.push((path, page_errors))
            },
    {
        self.files_processed = self.files_processed.saturating_add(1);
        self.pages_annotated = self.pages_annotated.saturating_add(pages);
        if page_errors.len() > 0 {
            self.partial_success.push((path, page_errors));
        }
    }

    /// Notes a file that failed, with its error message.
    pub fn record_error(&mut self, path: String, message: String)
        ensures
            final(self).files_processed == old(self).files_processed,
            final(self).pages_annotated == old(self).pages_annotated,
            final(self).errors@ == old(self).errors@.push((path, message)),
            final(self).partial_success@ == old(self).partial_success@,
    {
        self.errors.push((path, message));
    }
}

/// The tally of one file while its pages are gone through.
#[derive(Debug)]
pub struct PageTally {
    /// The number of pages that were annotated.
    pub pages_annotated: usize,
    /// The pages that failed, each with its number and its error message.
    pub page_errors: Vec<(usize, String)>,
}

impl PageTally {
    /// The tally before any page.
    pub fn new() -> (tally: Self)
        ensures
            tally.pages_annotated == 0,
            tally.page_errors@.len() == 0,
    {
        PageTally { pages_annotated: 0, page_errors: Vec::new() }
    }

    /// Notes how the page of the given number ended: annotated, or failed
    /// with a message. A page that fails does not stop the file.
    pub fn record_page(&mut self, page: usize, outcome: Result<(), String>)
        ensures
            match outcome {
                Ok(()) => final(self).pages_annotated == capped_sum(old(self).pages_annotated, 1)
                    && final(self).page_errors@ == old(self).page_errors@,
                Err(message) => final(self).pages_annotated == old(self).pages_annotated
                    && final(self).page_errors@ == old(self).page_errors@.push((page, message)),
            },
    {
        match outcome {
            Ok(()) => {
                self.pages_annotated = self.pages_annotated.saturating_add(1);
            },
            Err(message) => {
                self.page_errors.push((page, message));
            },
        }
    }

    /// Whether the file is worth saving: at least one page was annotated.
    pub fn is_worth_saving(&self) -> (r: bool)
        ensures
            r == (self.pages_annotated > 0),
    {
        self.pages_annotated > 0
    }

    /// How the file ended. A file of which no page was annotated has failed,
    /// and the errors of its pages are handed back; else the number of
    /// pages annotated and the errors of the others.
    pub fn finish(self) -> (r: Result<(usize, Vec<(usize, String)>), Vec<(usize, String)>>)
        ensures
            match r {
                Ok((pages, errors)) => self.pages_annotated > 0 && pages == self.pages_annotated
                    && errors@ == self.page_errors@,
                Err(errors) => self.pages_annotated == 0 && errors@ == self.page_errors@,
            },
    {
        if self.pages_annotated > 0 {
            Ok((self.pages_annotated, self.page_errors))
        } else {
            Err(self.page_errors)
        }
    }
}

} // verus!
