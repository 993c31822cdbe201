use vstd::prelude::*;
use crate::document::{
    Document, spec_image_urls, spec_count_images, urls_view, lemma_count_matches_attempts,
    lemma_count_le_len, image_urls,
};
use crate::filename::{spec_file_name, file_name_for};
use crate::numeral::{spec_decimal, usize_to_string};

verus! {

/// A failed image download: the response carried a non-success status.
#[derive(Debug)]
pub struct DownloadError {
    pub status: u16,
}

/// Whether an HTTP status code reports success.
pub open spec fn is_success_status(status: u16) -> bool {
    200 <= status < 300
}

/// Decides one download attempt from the status of its response: on a
/// success status, the name of the file the body is to be written to;
/// on any other status, the error carrying that status — and no file
/// name, so nothing is written for that attempt.
pub fn download_outcome(status: u16, url: &str, index: usize) -> (r: Result<
    String,
    DownloadError,
>)
    ensures
        r is Ok <==> is_success_status(status),
        r is Ok ==> r->Ok_0@ == spec_file_name(index as nat, url@),
        r is Err ==> r->Err_0.status == status,
{
    if 200 <= status && status < 300 {
        Ok(file_name_for(index, url))
    } else {
        Err(DownloadError { status })
    }
}

/// One run's driver state: the URLs still to attempt, and the counters
/// the final summary reads. The next file index always stands one past
/// the success count, so the files of a run are numbered 1, 2, ...
/// without gaps, however many attempts failed in between.
pub struct Session {
    pub tasks: Vec<String>,
    pub pos: usize,
    pub file_index: usize,
    pub success_count: usize,
}

impl Session {
    pub open spec fn wf(&self) -> bool {
        &&& self.pos <= self.tasks@.len()
        &&& self.success_count <= self.pos
        &&& self.file_index == self.success_count + 1
        &&& self.tasks@.len() < usize::MAX
    }

    /// Starts a run over the image URLs of `doc`: as many tasks as
    /// `count_images` gives, in the document's entry order, nothing
    /// attempted yet, and 1 as the first file index.
    pub fn new(doc: &Document) -> (s: Session)
        requires
            doc@.len() < usize::MAX,
        ensures
            s.wf(),
            urls_view(s.tasks@) == spec_image_urls(doc@),
            s.tasks@.len() == spec_count_images(doc@),
            s.pos == 0,
            s.success_count == 0,
            s.file_index == 1,
    {
        let tasks = image_urls(doc);
        proof {
            lemma_count_matches_attempts(doc@);
            lemma_count_le_len(doc@);
            assert(urls_view(tasks@).len() == tasks@.len());
        }
        Session { tasks, pos: 0, file_index: 1, success_count: 0 }
    }

    /// Whether an attempt is still pending.
    pub fn has_next(&self) -> (b: bool)
        ensures
            b == (self.pos < self.tasks@.len()),
    {
        self.pos < self.tasks.len()
    }

    /// The URL of the next attempt.
    pub fn next_url(&self) -> (u: &String)
        requires
            self.pos < self.tasks@.len(),
        ensures
            u@ == urls_view(self.tasks@)[self.pos as int],
    {
        &self.tasks[self.pos]
    }

    /// The 1-based index that names the next successful download's
    /// file: one past the successes so far.
    pub fn next_file_index(&self) -> (i: usize)
        requires
            self.wf(),
        ensures
            i == self.success_count + 1,
    {
        self.file_index
    }

    /// Records a successful download: the attempt is consumed, the
    /// success count grows by one, and with it the next file index.
    pub fn record_success(&mut self)
        requires
            old(self).wf(),
            old(self).pos < old(self).tasks@.len(),
        ensures
            final(self).wf(),
            final(self).tasks == old(self).tasks,
            final(self).pos == old(self).pos + 1,
            final(self).success_count == old(self).success_count + 1,
            final(self).file_index == old(self).file_index + 1,
    {
        self.pos = self.pos + 1;
        self.success_count = self.success_count + 1;
        self.file_index = self.file_index + 1;
    }

    /// Records a failed attempt: the attempt is consumed and nothing
    /// else moves — the success count stays, the next file index is
    /// not spent, and the run goes on with the next URL.
    pub fn record_failure(&mut self)
        requires
            old(self).wf(),
            old(self).pos < old(self).tasks@.len(),
        ensures
            final(self).wf(),
            final(self).tasks == old(self).tasks,
            final(self).pos == old(self).pos + 1,
            final(self).success_count == old(self).success_count,
            final(self).file_index == old(self).file_index,
    {
        self.pos = self.pos + 1;
    }

    /// The final summary: successes over the expected total.
    pub fn summary(&self) -> (r: (usize, usize))
        ensures
            r.0 == self.success_count,
            r.1 == self.tasks@.len(),
    {
        (self.success_count, self.tasks.len())
    }
}

/// The line a run ends with: the success count over the expected
/// total, then ` images downloaded successfully`.
pub open spec fn spec_summary_line(success: nat, total: nat) -> Seq<char> {
    spec_decimal(success) + seq!['/'] + spec_decimal(total) + " images downloaded successfully"@
}

/// Builds the run's final summary line, exactly
/// `{success_count}/{total} images downloaded successfully`.
pub fn summary_line(success_count: usize, total: usize) -> (line: String)
    ensures
        line@ == spec_summary_line(success_count as nat, total as nat),
{
    let mut line = usize_to_string(success_count);
    line.append("/");
    let rendered_total = usize_to_string(total);
    line.append(rendered_total.as_str());
    line.append(" images downloaded successfully");
    proof {
        reveal_strlit("/");
        assert(line@ =~= spec_summary_line(success_count as nat, total as nat));
    }
    line
}

} // verus!
