use vstd::prelude::*;

verus! {

/// Whether serde_json accepts the bytes as one JSON value.
pub uninterp spec fn json_bytes_valid(b: Seq<u8>) -> bool;

/// Relies on serde_json::from_slice: it yields a value exactly when the bytes are
/// valid JSON.
#[verifier::external_body]
fn is_valid_json(b: &[u8]) -> (r: bool)
    ensures
        r == json_bytes_valid(b@),
{
    serde_json::from_slice::<serde_json::Value>(b).is_ok()
}

/// The header block: one `name: value` line each, in order, then a blank line.
pub open spec fn header_lines(h: Seq<(Seq<char>, Seq<char>)>) -> Seq<char>
    decreases h.len(),
{
    if h.len() == 0 {
        Seq::empty()
    } else {
        header_lines(h.drop_last()) + h.last().0 + ": "@ + h.last().1 + "\n"@
    }
}

/// Renders headers as `name: value` lines followed by a blank separator line.
pub fn format_headers(headers: &Vec<(String, String)>) -> (r: String)
    ensures
        r@ == header_lines(crate::entries::pairs_view(headers@)) + "\n"@,
{
    let ghost hv = crate::entries::pairs_view(headers@);
    let mut r = String::new();
    let mut i: usize = 0;
    while i < headers.len()
        invariant
            i <= headers@.len(),
            hv == crate::entries::pairs_view(headers@),
            r@ == header_lines(hv.take(i as int)),
        decreases headers@.len() - i,
    {
        assert(hv.take(i + 1).drop_last() =~= hv.take(i as int));
        r.append(headers[i].0.as_str());
        r.append(": ");
        r.append(headers[i].1.as_str());
        r.append("\n");
        i = i + 1;
    }
    assert(hv.take(headers@.len() as int) =~= hv);
    r.append("\n");
    r
}

/// How output is prettified: reformatted, colored, both, or passed through.
#[derive(Clone, Copy, Debug, PartialEq, Eq, Structural)]
pub enum Pretty {
    All,
    Colors,
    Format,
    Plain,
}

impl Pretty {
    /// The mode when none is asked for: everything on a terminal, nothing elsewhere.
    pub fn auto(is_terminal: bool) -> (r: Pretty)
        ensures
            r == (if is_terminal { Pretty::All } else { Pretty::Plain }),
    {
        if is_terminal {
            Pretty::All
        } else {
            Pretty::Plain
        }
    }

    pub open spec fn formats(self) -> bool {
        self is All || self is Format
    }

    pub open spec fn colors(self) -> bool {
        self is All || self is Colors
    }

    /// Whether bodies are reformatted.
    pub fn format(&self) -> (r: bool)
        ensures
            r == self.formats(),
    {
        *self == Pretty::All || *self == Pretty::Format
    }

    /// Whether output is highlighted.
    pub fn color(&self) -> (r: bool)
        ensures
            r == self.colors(),
    {
        *self == Pretty::All || *self == Pretty::Colors
    }
}

/// The kinds of body content that rendering tells apart.
#[derive(Clone, Copy, Debug, PartialEq, Eq, Structural)]
pub enum ContentKind {
    Json,
    Other,
}

/// Whether `pat` occurs in `s` at `i`.
pub open spec fn occurs_at(s: Seq<char>, pat: Seq<char>, i: int) -> bool {
    0 <= i && i + pat.len() <= s.len() && s.subrange(i, i + pat.len()) == pat
}

/// A content type is JSON when `json` occurs in it (`application/json`,
/// `application/problem+json`, ...).
pub open spec fn content_kind_spec(content_type: Seq<char>) -> ContentKind {
    if exists|i: int| occurs_at(content_type, "json"@, i) {
        ContentKind::Json
    } else {
        ContentKind::Other
    }
}

/// Classifies a declared content type.
pub fn content_kind(content_type: &str) -> (r: ContentKind)
    ensures
        r == content_kind_spec(content_type@),
{
    proof {
        reveal_strlit("json");
    }
    let n = content_type.unicode_len();
    let mut i: usize = 0;
    while i < n && n - i >= 4
        invariant
            n == content_type@.len(),
            forall|j: int| 0 <= j < i ==> !occurs_at(content_type@, "json"@, j),
        decreases n - i,
    {
        let ghost s = content_type@;
        proof {
            reveal_strlit("json");
        }
        if content_type.get_char(i) == 'j' && content_type.get_char(i + 1) == 's'
            && content_type.get_char(i + 2) == 'o' && content_type.get_char(i + 3) == 'n' {
            assert(s.subrange(i as int, i + 4) =~= "json"@);
            assert(occurs_at(s, "json"@, i as int));
            return ContentKind::Json;
        }
        assert(!occurs_at(s, "json"@, i as int)) by {
            if occurs_at(s, "json"@, i as int) {
                assert(s.subrange(i as int, i + 4)[0] == s[i as int]);
                assert(s.subrange(i as int, i + 4)[1] == s[i + 1]);
                assert(s.subrange(i as int, i + 4)[2] == s[i + 2]);
                assert(s.subrange(i as int, i + 4)[3] == s[i + 3]);
            }
        }
        i = i + 1;
    }
    assert forall|j: int| !occurs_at(content_type@, "json"@, j) by {
        reveal_strlit("json");
        if j >= i {
            assert(!(j + 4 <= n));
        }
    }
    ContentKind::Other
}

/// Where the JSON reformatter stands between two bytes.
pub struct FmtState {
    pub in_string: bool,
    pub escaped: bool,
    pub depth: nat,
    /// An opening bracket was written and its first member has not come yet.
    pub pending: bool,
}

pub open spec fn is_json_space(b: u8) -> bool {
    b == 32 || b == 9 || b == 10 || b == 13
}

/// A line break, then four spaces per level.
pub open spec fn newline_indent(depth: nat) -> Seq<u8> {
    seq![10u8] + Seq::new(4 * depth, |i: int| 32u8)
}

/// One step of the reformatter: strings pass unchanged, whitespace outside them
/// goes, members go on lines of their own, and `:` is followed by a space.
/// An empty object or array stays on one line.
pub open spec fn fmt_step(st: FmtState, b: u8) -> (FmtState, Seq<u8>) {
    if st.in_string {
        if st.escaped {
            (FmtState { escaped: false, ..st }, seq![b])
        } else if b == 92 {
            (FmtState { escaped: true, ..st }, seq![b])
        } else if b == 34 {
            (FmtState { in_string: false, ..st }, seq![b])
        } else {
            (st, seq![b])
        }
    } else if is_json_space(b) {
        (st, Seq::empty())
    } else if b == 125 || b == 93 {
        let d: nat = if st.depth > 0 { (st.depth - 1) as nat } else { 0 };
        if st.pending {
            (FmtState { depth: d, pending: false, ..st }, seq![b])
        } else {
            (FmtState { depth: d, ..st }, newline_indent(d) + seq![b])
        }
    } else {
        let pre = if st.pending { newline_indent(st.depth) } else { Seq::empty() };
        let st1 = FmtState { pending: false, ..st };
        if b == 123 || b == 91 {
            (FmtState { depth: st.depth + 1, pending: true, ..st }, pre + seq![b])
        } else if b == 44 {
            (st1, pre + seq![b] + newline_indent(st.depth))
        } else if b == 58 {
            (st1, pre + seq![b, 32u8])
        } else if b == 34 {
            (FmtState { in_string: true, ..st1 }, pre + seq![b])
        } else {
            (st1, pre + seq![b])
        }
    }
}

/// The reformatter run over the bytes: its final state and all it wrote.
pub open spec fn fmt_run(input: Seq<u8>) -> (FmtState, Seq<u8>)
    decreases input.len(),
{
    if input.len() == 0 {
        (FmtState { in_string: false, escaped: false, depth: 0, pending: false }, Seq::empty())
    } else {
        let (st, out) = fmt_run(input.drop_last());
        let (st2, more) = fmt_step(st, input.last());
        (st2, out + more)
    }
}

proof fn lemma_fmt_depth(input: Seq<u8>)
    ensures
        fmt_run(input).0.depth <= input.len(),
    decreases input.len(),
{
    if input.len() > 0 {
        lemma_fmt_depth(input.drop_last());
    }
}

fn push_newline_indent(out: &mut Vec<u8>, depth: usize)
    requires
        depth <= usize::MAX / 4,
    ensures
        final(out)@ == old(out)@ + newline_indent(depth as nat),
{
    let ghost start = out@;
    out.push(10u8);
    let mut k: usize = 0;
    while k < 4 * depth
        invariant
            depth <= usize::MAX / 4,
            k <= 4 * depth,
            out@ == start + seq![10u8] + Seq::new(k as nat, |i: int| 32u8),
        decreases 4 * depth - k,
    {
        out.push(32u8);
        k = k + 1;
        assert(out@ =~= start + seq![10u8] + Seq::new(k as nat, |i: int| 32u8));
    }
}

/// A JSON reformatter fed a chunk at a time: what it writes for the chunks, put
/// together, is what it writes for the whole text at once.
pub struct JsonFormatter {
    in_string: bool,
    escaped: bool,
    depth: usize,
    pending: bool,
    /// The bytes fed so far.
    consumed: Ghost<Seq<u8>>,
}

impl JsonFormatter {
    pub closed spec fn fed(&self) -> Seq<u8> {
        self.consumed@
    }

    pub closed spec fn wf(&self) -> bool {
        &&& self.depth <= self.consumed@.len()
        &&& fmt_run(self.consumed@).0 == FmtState {
            in_string: self.in_string,
            escaped: self.escaped,
            depth: self.depth as nat,
            pending: self.pending,
        }
    }

    pub fn new() -> (r: JsonFormatter)
        ensures
            r.wf(),
            r.fed() == Seq::<u8>::empty(),
    {
        JsonFormatter {
            in_string: false,
            escaped: false,
            depth: 0,
            pending: false,
            consumed: Ghost(Seq::empty()),
        }
    }

    /// Reformats the next chunk of the text.
    pub fn feed(&mut self, chunk: &[u8]) -> (r: Vec<u8>)
        requires
            old(self).wf(),
            old(self).fed().len() + chunk@.len() <= usize::MAX / 4,
        ensures
            final(self).wf(),
            final(self).fed() == old(self).fed() + chunk@,
            fmt_run(final(self).fed()).1 == fmt_run(old(self).fed()).1 + r@,
    {
        let ghost start = self.consumed@;
        let mut out: Vec<u8> = Vec::new();
        let mut i: usize = 0;
        while i < chunk.len()
            invariant
                start.len() + chunk@.len() <= usize::MAX / 4,
                i <= chunk@.len(),
                self.consumed@ == start + chunk@.take(i as int),
                self.wf(),
                fmt_run(self.consumed@).1 == fmt_run(start).1 + out@,
            decreases chunk@.len() - i,
        {
            let b = chunk[i];
            let ghost out0 = out@;
            let ghost prev = self.consumed@;
            let ghost st0 = FmtState {
                in_string: self.in_string,
                escaped: self.escaped,
                depth: self.depth as nat,
                pending: self.pending,
            };
            if self.in_string {
                out.push(b);
                if self.escaped {
                    self.escaped = false;
                } else if b == 92 {
                    self.escaped = true;
                } else if b == 34 {
                    self.in_string = false;
                }
            } else if b == 32 || b == 9 || b == 10 || b == 13 {
            } else if b == 125 || b == 93 {
                if self.depth > 0 {
                    self.depth = self.depth - 1;
                }
                if self.pending {
                    self.pending = false;
                } else {
                    push_newline_indent(&mut out, self.depth);
                }
                out.push(b);
            } else {
                if self.pending {
                    push_newline_indent(&mut out, self.depth);
                    self.pending = false;
                }
                if b == 123 || b == 91 {
                    out.push(b);
                    self.depth = self.depth + 1;
                    self.pending = true;
                } else if b == 44 {
                    out.push(b);
                    push_newline_indent(&mut out, self.depth);
                } else if b == 58 {
                    out.push(b);
                    out.push(32u8);
                } else if b == 34 {
                    out.push(b);
                    self.in_string = true;
                } else {
                    out.push(b);
                }
            }
            self.consumed = Ghost(start + chunk@.take(i + 1));
            assert(self.consumed@.drop_last() =~= prev);
            assert(self.consumed@.last() == b);
            assert(out@ =~= out0 + fmt_step(st0, b).1);
            i = i + 1;
        }
        assert(chunk@.take(chunk@.len() as int) =~= chunk@);
        out
    }
}

/// Reformats JSON text with an indentation of four spaces, keeping every byte of
/// every string and the order of all members.
pub fn indent_json(input: &[u8]) -> (r: Vec<u8>)
    requires
        input@.len() <= usize::MAX / 4,
    ensures
        r@ == fmt_run(input@).1,
{
    let mut f = JsonFormatter::new();
    let r = f.feed(input);
    assert(Seq::<u8>::empty() + input@ =~= input@);
    r
}

/// Where a reader of JSON text stands: inside a string or not, and after a backslash.
pub struct ScanState {
    pub in_string: bool,
    pub escaped: bool,
}

/// One step of dropping the whitespace outside strings.
pub open spec fn strip_step(st: ScanState, b: u8) -> (ScanState, Seq<u8>) {
    if st.in_string {
        if st.escaped {
            (ScanState { escaped: false, ..st }, seq![b])
        } else if b == 92 {
            (ScanState { escaped: true, ..st }, seq![b])
        } else if b == 34 {
            (ScanState { in_string: false, ..st }, seq![b])
        } else {
            (st, seq![b])
        }
    } else if is_json_space(b) {
        (st, Seq::empty())
    } else if b == 34 {
        (ScanState { in_string: true, ..st }, seq![b])
    } else {
        (st, seq![b])
    }
}

/// Drops the whitespace outside strings from `s`, read from state `st`.
pub open spec fn strip_from(st: ScanState, s: Seq<u8>) -> (ScanState, Seq<u8>)
    decreases s.len(),
{
    if s.len() == 0 {
        (st, Seq::empty())
    } else {
        let (st1, o1) = strip_from(st, s.drop_last());
        let (st2, o2) = strip_step(st1, s.last());
        (st2, o1 + o2)
    }
}

pub open spec fn scan_start() -> ScanState {
    ScanState { in_string: false, escaped: false }
}

pub open spec fn scan_of(f: FmtState) -> ScanState {
    ScanState { in_string: f.in_string, escaped: f.escaped }
}

/// The bytes of JSON text that carry meaning: all but the whitespace outside strings.
pub open spec fn significant(s: Seq<u8>) -> Seq<u8> {
    strip_from(scan_start(), s).1
}

proof fn lemma_strip_concat(st: ScanState, a: Seq<u8>, c: Seq<u8>)
    ensures
        strip_from(st, a + c) == (
            strip_from(strip_from(st, a).0, c).0,
            strip_from(st, a).1 + strip_from(strip_from(st, a).0, c).1,
        ),
    decreases c.len(),
{
    if c.len() == 0 {
        assert(a + c =~= a);
        assert(strip_from(st, a).1 + Seq::<u8>::empty() =~= strip_from(st, a).1);
    } else {
        lemma_strip_concat(st, a, c.drop_last());
        assert((a + c).drop_last() =~= a + c.drop_last());
        let s1 = strip_from(st, a);
        let m = strip_from(s1.0, c.drop_last());
        let l = strip_step(m.0, c.last());
        assert(s1.1 + m.1 + l.1 =~= s1.1 + (m.1 + l.1));
    }
}

proof fn lemma_strip_spaces(st: ScanState, w: Seq<u8>)
    requires
        !st.in_string,
        forall|i: int| 0 <= i < w.len() ==> is_json_space(#[trigger] w[i]),
    ensures
        strip_from(st, w) == (st, Seq::<u8>::empty()),
    decreases w.len(),
{
    if w.len() > 0 {
        lemma_strip_spaces(st, w.drop_last());
        assert(is_json_space(w[w.len() - 1]));
        assert(Seq::<u8>::empty() + Seq::<u8>::empty() =~= Seq::<u8>::empty());
    }
}

proof fn lemma_strip_one(st: ScanState, b: u8)
    ensures
        strip_from(st, seq![b]) == strip_step(st, b),
{
    let s = seq![b];
    assert(s.drop_last() =~= Seq::<u8>::empty());
    assert(s.last() == b);
    assert(strip_from(st, s.drop_last()) == (st, Seq::<u8>::empty()));
    assert(strip_from(st, s).1 =~= strip_step(st, b).1);
}

proof fn lemma_indent_spaces(d: nat)
    ensures
        forall|i: int| 0 <= i < newline_indent(d).len() ==> is_json_space(#[trigger] newline_indent(d)[i]),
{
    assert forall|i: int| 0 <= i < newline_indent(d).len() implies is_json_space(
        #[trigger] newline_indent(d)[i],
    ) by {
        if i > 0 {
            assert(newline_indent(d)[i] == Seq::new(4 * d, |k: int| 32u8)[i - 1]);
        }
    }
}

/// Whitespace `w` outside a string, then the one byte `b`.
proof fn lemma_strip_spaced(st: ScanState, w: Seq<u8>, b: u8)
    requires
        !st.in_string,
        forall|i: int| 0 <= i < w.len() ==> is_json_space(#[trigger] w[i]),
    ensures
        strip_from(st, w + seq![b]) == strip_step(st, b),
{
    lemma_strip_concat(st, w, seq![b]);
    lemma_strip_spaces(st, w);
    lemma_strip_one(st, b);
    assert(Seq::<u8>::empty() + strip_step(st, b).1 =~= strip_step(st, b).1);
}

proof fn lemma_fmt_keeps_significant(x: Seq<u8>)
    ensures
        strip_from(scan_start(), x).0 == scan_of(fmt_run(x).0),
        strip_from(scan_start(), fmt_run(x).1) == strip_from(scan_start(), x),
    decreases x.len(),
{
    let init = scan_start();
    if x.len() > 0 {
        let p = x.drop_last();
        let b = x.last();
        lemma_fmt_keeps_significant(p);
        let (fs, outp) = fmt_run(p);
        let more = fmt_step(fs, b).1;
        let sp = strip_from(init, p).0;
        lemma_strip_concat(init, outp, more);
        if fs.in_string {
            lemma_strip_one(sp, b);
        } else if is_json_space(b) {
        } else {
            let pre = if fs.pending { newline_indent(fs.depth) } else { Seq::<u8>::empty() };
            lemma_indent_spaces(fs.depth);
            if b == 125 || b == 93 {
                let d: nat = if fs.depth > 0 { (fs.depth - 1) as nat } else { 0 };
                lemma_indent_spaces(d);
                if fs.pending {
                    lemma_strip_one(sp, b);
                } else {
                    lemma_strip_spaced(sp, newline_indent(d), b);
                }
            } else if b == 44 {
                lemma_strip_spaced(sp, pre, b);
                lemma_strip_concat(sp, pre + seq![b], newline_indent(fs.depth));
                lemma_strip_spaces(strip_step(sp, b).0, newline_indent(fs.depth));
                assert(strip_step(sp, b).1 + Seq::<u8>::empty() =~= strip_step(sp, b).1);
            } else if b == 58 {
                assert(pre + seq![b, 32u8] =~= (pre + seq![b]) + seq![32u8]);
                lemma_strip_spaced(sp, pre, b);
                lemma_strip_concat(sp, pre + seq![b], seq![32u8]);
                lemma_strip_one(strip_step(sp, b).0, 32u8);
                assert(strip_step(sp, b).1 + Seq::<u8>::empty() =~= strip_step(sp, b).1);
            } else {
                lemma_strip_spaced(sp, pre, b);
            }
        }
    }
}

/// Reformatting changes only whitespace outside strings: the meaningful bytes,
/// and with them the order of keys and members, stay as they were.
pub proof fn lemma_formatting_keeps_content(x: Seq<u8>)
    ensures
        significant(fmt_run(x).1) == significant(x),
{
    lemma_fmt_keeps_significant(x);
}

/// The bytes shown for a body: valid JSON declared as JSON is reindented when the
/// mode reformats; everything else passes through unchanged.
pub open spec fn render_body_spec(content_type: Seq<char>, pretty: Pretty, body: Seq<u8>) -> Seq<u8> {
    if pretty.formats() && content_kind_spec(content_type) == ContentKind::Json && json_bytes_valid(
        body,
    ) {
        fmt_run(body).1
    } else {
        body
    }
}

/// Renders a buffered body for display.
pub fn render_body(content_type: &str, pretty: Pretty, body: &Vec<u8>) -> (r: Vec<u8>)
    requires
        body@.len() <= usize::MAX / 4,
    ensures
        r@ == render_body_spec(content_type@, pretty, body@),
{
    if pretty.format() && content_kind(content_type) == ContentKind::Json && is_valid_json(
        body.as_slice(),
    ) {
        indent_json(body.as_slice())
    } else {
        body.clone()
    }
}

/// Whatever the mode and content type, a rendered body carries the meaningful
/// bytes of the body received, in the order received.
pub proof fn lemma_render_keeps_content(content_type: Seq<char>, pretty: Pretty, body: Seq<u8>)
    ensures
        significant(render_body_spec(content_type, pretty, body)) == significant(body),
{
    lemma_formatting_keeps_content(body);
}

/// Without reformatting, or for content that is not JSON, a body is shown byte
/// for byte as it came.
pub proof fn lemma_plain_body_round_trip(content_type: Seq<char>, pretty: Pretty, body: Seq<u8>)
    requires
        !pretty.formats() || content_kind_spec(content_type) == ContentKind::Other,
    ensures
        render_body_spec(content_type, pretty, body) == body,
{
}

} // verus!
