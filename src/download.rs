use vstd::prelude::*;

verus! {

/// The decimal digit of a value below ten.
pub open spec fn digit_char(d: nat) -> char {
    "0123456789"@[d as int]
}

/// The decimal writing of a number, without leading zeros.
pub open spec fn decimal(n: nat) -> Seq<char>
    decreases n,
{
    if n < 10 {
        seq![digit_char(n)]
    } else {
        decimal(n / 10).push(digit_char(n % 10))
    }
}

fn digit_str(d: u64) -> (r: &'static str)
    requires
        d < 10,
    ensures
        r@ == seq![digit_char(d as nat)],
{
    let digits = "0123456789";
    proof {
        reveal_strlit("0123456789");
    }
    let r = digits.substring_ascii(d as usize, d as usize + 1);
    assert(r@ =~= seq![digit_char(d as nat)]);
    r
}

/// The decimal writing of `n`.
pub fn decimal_string(n: u64) -> (r: String)
    ensures
        r@ == decimal(n as nat),
    decreases n,
{
    if n < 10 {
        String::from_str(digit_str(n))
    } else {
        let mut s = decimal_string(n / 10);
        s.append(digit_str(n % 10));
        assert(s@ =~= decimal(n as nat));
        s
    }
}

/// The value of the `Range` header that resumes a download after `offset` bytes.
pub open spec fn range_value(offset: nat) -> Seq<char> {
    "bytes="@ + decimal(offset) + "-"@
}

/// The value of the `Range` header that asks for everything after the first
/// `offset` bytes.
pub fn range_header_value(offset: u64) -> (r: String)
    ensures
        r@ == range_value(offset as nat),
{
    let mut r = String::from_str("bytes=");
    let d = decimal_string(offset);
    r.append(d.as_str());
    r.append("-");
    r
}

/// The position just after the last `/` at or before `i`, or 0.
pub open spec fn segment_start(s: Seq<char>, i: int) -> int
    decreases i + 1,
{
    if i < 0 || i >= s.len() {
        0
    } else if s[i] == '/' {
        i + 1
    } else {
        segment_start(s, i - 1)
    }
}

/// The file a download is saved to when no output is named: the last segment of
/// the URL's path, or `index.html` where that segment is empty.
pub open spec fn file_name_spec(path: Seq<char>) -> Seq<char> {
    let seg = path.subrange(segment_start(path, path.len() - 1), path.len() as int);
    if seg.len() == 0 {
        "index.html"@
    } else {
        seg
    }
}

proof fn lemma_segment_start_bounds(s: Seq<char>, i: int)
    requires
        i < s.len(),
    ensures
        0 <= segment_start(s, i) <= i + 1 || i < 0,
        0 <= segment_start(s, i) <= s.len(),
    decreases i + 1,
{
    if i >= 0 && s[i] != '/' {
        lemma_segment_start_bounds(s, i - 1);
    }
}

/// Derives the destination file name from the path of the URL.
pub fn default_file_name(path: &str) -> (r: String)
    ensures
        r@ == file_name_spec(path@),
{
    let n = path.unicode_len();
    let mut i: usize = n;
    proof {
        lemma_segment_start_bounds(path@, n - 1);
    }
    while i > 0 && path.get_char(i - 1) != '/'
        invariant
            n == path@.len(),
            i <= n,
            segment_start(path@, i - 1) == segment_start(path@, n - 1),
        decreases i,
    {
        i = i - 1;
    }
    let seg = path.substring_char(i, n);
    if seg.unicode_len() == 0 {
        String::from_str("index.html")
    } else {
        String::from_str(seg)
    }
}

/// Where a download stands.
#[derive(Clone, Copy, Debug, PartialEq, Eq, Structural)]
pub enum DownloadState {
    /// Nothing sent yet; the file will be written afresh.
    Start,
    /// Nothing sent yet; the file holds a part that the response continues.
    Resuming,
    /// Bytes are being copied from the response to the file.
    InProgress,
    /// The response was copied whole.
    Complete,
    /// Copying stopped on an error; what was written stays on disk.
    Failed,
}

/// How the destination file is opened.
#[derive(Clone, Copy, Debug, PartialEq, Eq, Structural)]
pub enum WriteMode {
    /// Created, or cut to nothing.
    Truncate,
    /// Written after what it holds.
    Append,
}

/// The state of one download to a file.
pub struct Download {
    pub state: DownloadState,
    /// Bytes that were on disk before the request.
    pub offset: u64,
    /// Bytes written since.
    pub received: u64,
    /// Whether the file is appended to.
    pub append: bool,
}

impl Download {
    pub open spec fn wf(&self) -> bool {
        &&& self.offset + self.received <= u64::MAX
        &&& (self.state is Start ==> self.offset == 0 && self.received == 0 && !self.append)
        &&& (self.state is Resuming ==> self.received == 0 && self.append)
        &&& (!self.append ==> self.offset == 0)
    }

    /// Begins a download. A file already at the destination is resumed when
    /// `resume` is asked for; otherwise it will be overwritten.
    pub fn start(resume: bool, existing_size: Option<u64>) -> (r: Download)
        ensures
            r.wf(),
            r.received == 0,
            match existing_size {
                Some(n) if resume => r.state == DownloadState::Resuming && r.offset == n,
                _ => r.state == DownloadState::Start && r.offset == 0,
            },
    {
        match existing_size {
            Some(n) if resume => Download { state: DownloadState::Resuming, offset: n, received: 0, append: true },
            _ => Download { state: DownloadState::Start, offset: 0, received: 0, append: false },
        }
    }

    /// The `Range` header value to send: only when resuming, from the existing size.
    pub fn range_header(&self) -> (r: Option<String>)
        requires
            self.wf(),
        ensures
            self.state is Resuming ==> (r matches Some(s) && s@ == range_value(self.offset as nat)),
            !(self.state is Resuming) ==> r is None,
    {
        if self.state == DownloadState::Resuming {
            Some(range_header_value(self.offset))
        } else {
            None
        }
    }

    /// The response has come: the transfer begins, appending when resuming.
    pub fn begin_transfer(&mut self) -> (r: WriteMode)
        requires
            old(self).wf(),
            old(self).state is Start || old(self).state is Resuming,
        ensures
            final(self).wf(),
            final(self).state == DownloadState::InProgress,
            final(self).offset == old(self).offset,
            final(self).received == 0,
            r == (if old(self).state is Resuming { WriteMode::Append } else { WriteMode::Truncate }),
    {
        let r = if self.state == DownloadState::Resuming {
            WriteMode::Append
        } else {
            WriteMode::Truncate
        };
        self.state = DownloadState::InProgress;
        r
    }

    /// A chunk of `n` bytes was written to the file.
    pub fn on_chunk(&mut self, n: u64)
        requires
            old(self).wf(),
            old(self).state is InProgress,
            old(self).offset + old(self).received + n <= u64::MAX,
        ensures
            final(self).wf(),
            final(self).state == DownloadState::InProgress,
            final(self).offset == old(self).offset,
            final(self).received == old(self).received + n,
    {
        self.received = self.received + n;
    }

    /// The response stream is exhausted and the file flushed.
    pub fn on_finish(&mut self)
        requires
            old(self).wf(),
            old(self).state is InProgress,
        ensures
            final(self).wf(),
            final(self).state == DownloadState::Complete,
            final(self).offset == old(self).offset,
            final(self).received == old(self).received,
    {
        self.state = DownloadState::Complete;
    }

    /// Copying failed; the partial file is kept for a later resume.
    pub fn on_error(&mut self)
        requires
            old(self).wf(),
        ensures
            final(self).wf(),
            final(self).state == DownloadState::Failed,
            final(self).offset == old(self).offset,
            final(self).received == old(self).received,
    {
        self.state = DownloadState::Failed;
    }

    /// The size of the file on disk: what was there before, and what was written.
    pub fn file_size(&self) -> (r: u64)
        requires
            self.wf(),
        ensures
            r == self.offset + self.received,
    {
        self.offset + self.received
    }
}

} // verus!
