//! The client side of the daemon's HTTP/1.1 interface over a Unix
//! socket: the request head it writes, how it reads the status code
//! and body back, and what a connection attempt says about liveness.
use crate::config::{debug_quoted, debug_quoted_spec};
use crate::text::{
    chars_of, concat2, contains_spec, decimal, is_whitespace, is_whitespace_spec, occurs_at,
    owned, string_of, string_of_range, u64_to_decimal,
};
use vstd::prelude::*;

verus! {

// ---------------------------------------------------------------------
// Request
// ---------------------------------------------------------------------
/// The header lines for `headers`, each `name: value` and CRLF.
pub open spec fn header_lines(headers: Seq<(&str, &str)>) -> Seq<char>
    decreases headers.len(),
{
    if headers.len() == 0 {
        Seq::empty()
    } else {
        header_lines(headers.drop_last()) + headers.last().0@ + ": "@ + headers.last().1@ + "\r\n"@
    }
}

/// The request head for `method path`: a bodiless HTTP/1.1 request to
/// `localhost` that asks the server to close the connection, followed
/// by the extra headers and the blank line.
pub open spec fn request_head_spec(method: Seq<char>, path: Seq<char>, headers: Seq<(&str, &str)>) -> Seq<char> {
    method + " "@ + path + " HTTP/1.1\r\nHost: localhost\r\nContent-Length: 0\r\nConnection: close\r\n"@
        + header_lines(headers) + "\r\n"@
}

/// Builds the request head.
pub fn request_head(method: &str, path: &str, extra_headers: &[(&str, &str)]) -> (r: String)
    ensures
        r@ == request_head_spec(method@, path@, extra_headers@),
{
    let mut head = concat2(method, " ");
    head.append(path);
    head.append(" HTTP/1.1\r\nHost: localhost\r\nContent-Length: 0\r\nConnection: close\r\n");
    let ghost start = head@;
    let n = extra_headers.len();
    let mut i: usize = 0;
    proof {
        assert(extra_headers@.take(0) =~= Seq::<(&str, &str)>::empty());
    }
    while i < n
        invariant
            n == extra_headers@.len(),
            i <= n,
            head@ == start + header_lines(extra_headers@.take(i as int)),
        decreases n - i,
    {
        let (k, v) = extra_headers[i];
        head.append(k);
        head.append(": ");
        head.append(v);
        head.append("\r\n");
        proof {
            assert(extra_headers@.take(i + 1).drop_last() =~= extra_headers@.take(i as int));
            assert(extra_headers@.take(i + 1).last() == extra_headers@[i as int]);
        }
        i = i + 1;
    }
    proof {
        assert(extra_headers@.take(n as int) =~= extra_headers@);
    }
    head.append("\r\n");
    head
}

// ---------------------------------------------------------------------
// Response
// ---------------------------------------------------------------------
/// The text `String::from_utf8_lossy` decodes from `bytes`.
pub uninterp spec fn utf8_lossy_spec(bytes: Seq<u8>) -> Seq<char>;

/// `String::from_utf8_lossy`: the bytes decoded as UTF-8, with each
/// invalid sequence replaced by U+FFFD. Its decoding rules are not
/// restated; the result is named.
#[verifier::external_body]
fn utf8_lossy(bytes: &[u8]) -> (r: String)
    ensures
        r@ == utf8_lossy_spec(bytes@),
{
    String::from_utf8_lossy(bytes).into_owned()
}

/// The number of bytes `c` takes in UTF-8.
pub open spec fn utf8_len(c: char) -> nat {
    if (c as u32) < 0x80 {
        1
    } else if (c as u32) < 0x800 {
        2
    } else if (c as u32) < 0x10000 {
        3
    } else {
        4
    }
}

/// The number of bytes `s` takes in UTF-8.
pub open spec fn utf8_size(s: Seq<char>) -> nat
    decreases s.len(),
{
    if s.len() == 0 {
        0
    } else {
        utf8_size(s.drop_last()) + utf8_len(s.last())
    }
}

/// The longest prefix of `s` (in characters) whose UTF-8 encoding fits
/// in `limit` bytes: the first `limit` bytes of the text, cut back to a
/// character boundary.
pub open spec fn byte_prefix(s: Seq<char>, limit: nat) -> Seq<char>
    decreases s.len(),
{
    if utf8_size(s) <= limit {
        s
    } else {
        byte_prefix(s.drop_last(), limit)
    }
}

/// The first position where `\r\n\r\n` occurs, if it does.
#[verifier::opaque]
pub open spec fn first_blank_line(s: Seq<char>) -> Option<int> {
    if contains_spec(s, "\r\n\r\n"@) {
        Some(choose|i: int| occurs_at(s, "\r\n\r\n"@, i) && forall|j: int| 0 <= j < i ==> !occurs_at(s, "\r\n\r\n"@, j))
    } else {
        None
    }
}

/// The first line of `s`, as `str::lines` yields it: up to the first
/// line feed, without it and without a carriage return before it; none
/// for the empty string.
#[verifier::opaque]
pub open spec fn first_line(s: Seq<char>) -> Option<Seq<char>> {
    if s.len() == 0 {
        None
    } else if s.contains('\n') {
        let k = choose|k: int| 0 <= k < s.len() && s[k] == '\n' && forall|j: int| 0 <= j < k ==> s[j] != '\n';
        Some(
            if k > 0 && s[k - 1] == '\r' {
                s.take(k - 1)
            } else {
                s.take(k)
            },
        )
    } else {
        Some(s)
    }
}

/// The whitespace-separated tokens of `s` (as `str::split_whitespace`
/// yields them), scanning from the front with the token in progress and
/// those completed.
pub open spec fn scan_tokens(s: Seq<char>, cur: Seq<char>, done: Seq<Seq<char>>) -> Seq<Seq<char>>
    decreases s.len(),
{
    if s.len() == 0 {
        if cur.len() > 0 {
            done.push(cur)
        } else {
            done
        }
    } else if is_whitespace_spec(s[0]) {
        scan_tokens(s.drop_first(), Seq::empty(), if cur.len() > 0 {
            done.push(cur)
        } else {
            done
        })
    } else {
        scan_tokens(s.drop_first(), cur.push(s[0]), done)
    }
}

/// The whitespace-separated tokens of `s`.
pub open spec fn tokens(s: Seq<char>) -> Seq<Seq<char>> {
    scan_tokens(s, Seq::empty(), Seq::empty())
}

/// The value of a string of decimal digits.
pub open spec fn digits_value(s: Seq<char>) -> nat
    decreases s.len(),
{
    if s.len() == 0 {
        0
    } else {
        digits_value(s.drop_last()) * 10 + ((s.last() as u32) - ('0' as u32)) as nat
    }
}

/// Every character is an ASCII digit.
pub open spec fn all_digits(s: Seq<char>) -> bool {
    forall|i: int| 0 <= i < s.len() ==> '0' <= #[trigger] s[i] && s[i] <= '9'
}

/// `str::parse::<u16>`: an optional `+`, then at least one digit, with
/// a value that fits.
pub open spec fn parse_u16_spec(s: Seq<char>) -> Option<u16> {
    let d = if s.len() > 0 && s[0] == '+' {
        s.drop_first()
    } else {
        s
    };
    if d.len() > 0 && all_digits(d) && digits_value(d) <= u16::MAX {
        Some(digits_value(d) as u16)
    } else {
        None
    }
}

/// Why a daemon response could not be read.
#[derive(Debug)]
pub enum ResponseError {
    /// No blank line separates head and body. Holds the response size in
    /// bytes and its first bytes (at most 200, cut at a character
    /// boundary).
    NoHeaderSplit { bytes: usize, preview: String },
    /// The head is empty.
    Empty,
    /// The status line has no numeric status code.
    NoStatusCode,
}

impl ResponseError {
    /// Human-readable description.
    pub fn message(&self) -> (r: String)
        ensures
            self matches ResponseError::NoHeaderSplit { bytes, preview } ==> r@
                == "malformed daemon response: no header/body split; got "@ + decimal(*bytes as nat) + " bytes: "@
                + debug_quoted_spec(preview@),
            self is Empty ==> r@ == "malformed daemon response: empty"@,
            self is NoStatusCode ==> r@ == "malformed daemon response: no status code"@,
    {
        match self {
            ResponseError::NoHeaderSplit { bytes, preview } => {
                let n = u64_to_decimal(*bytes as u64);
                let mut r = concat2("malformed daemon response: no header/body split; got ", n.as_str());
                r.append(" bytes: ");
                let q = debug_quoted(preview.as_str());
                r.append(q.as_str());
                r
            },
            ResponseError::Empty => owned("malformed daemon response: empty"),
            ResponseError::NoStatusCode => owned("malformed daemon response: no status code"),
        }
    }
}

/// Which step of reading a response failed.
pub enum ResponseFault {
    NoHeaderSplit,
    Empty,
    NoStatusCode,
}

/// What a response text means: its status code and body, or why it
/// cannot be read (the blank line is looked for first, then the status
/// line, then its second token).
pub open spec fn response_spec(text: Seq<char>) -> Result<(u16, Seq<char>), ResponseFault> {
    match first_blank_line(text) {
        None => Err(ResponseFault::NoHeaderSplit),
        Some(i) => match first_line(text.take(i)) {
            None => Err(ResponseFault::Empty),
            Some(line) => if tokens(line).len() >= 2 && parse_u16_spec(tokens(line)[1]) is Some {
                Ok((parse_u16_spec(tokens(line)[1]).unwrap(), text.skip(i + 4)))
            } else {
                Err(ResponseFault::NoStatusCode)
            },
        },
    }
}

fn find_blank_line(cs: &Vec<char>) -> (r: Option<usize>)
    ensures
        match r {
            Some(i) => first_blank_line(cs@) == Some(i as int) && i + 4 <= cs@.len(),
            None => first_blank_line(cs@).is_none(),
        },
{
    let ghost lit = "\r\n\r\n"@;
    proof {
        reveal(first_blank_line);
        reveal_strlit("\r\n\r\n");
        assert(lit.len() == 4);
        assert(lit[0] == '\r' && lit[1] == '\n' && lit[2] == '\r' && lit[3] == '\n');
    }
    let n = cs.len();
    if n < 4 {
        proof {
            assert forall|j: int| !occurs_at(cs@, lit, j) by {}
        }
        return None;
    }
    let last = n - 4;
    let mut i: usize = 0;
    while i <= last
        invariant
            n == cs@.len(),
            last + 4 == n,
            lit == "\r\n\r\n"@,
            lit.len() == 4,
            lit[0] == '\r' && lit[1] == '\n' && lit[2] == '\r' && lit[3] == '\n',
            i <= last + 1,
            forall|j: int| 0 <= j < i ==> !occurs_at(cs@, lit, j),
        decreases last + 1 - i,
    {
        let hit = cs[i] == '\r' && cs[i + 1] == '\n' && cs[i + 2] == '\r' && cs[i + 3] == '\n';
        proof {
            let w = cs@.subrange(i as int, i + 4);
            assert(w[0] == cs@[i as int] && w[1] == cs@[i + 1] && w[2] == cs@[i + 2] && w[3] == cs@[i + 3]);
            if hit {
                assert(w =~= lit);
            }
        }
        if hit {
            proof {
                reveal(first_blank_line);
                assert(occurs_at(cs@, lit, i as int));
                assert(contains_spec(cs@, lit));
                let v = choose|v: int| occurs_at(cs@, lit, v) && forall|j: int| 0 <= j < v ==> !occurs_at(cs@, lit, j);
                if v < i {
                } else if v > i {
                }
            }
            return Some(i);
        }
        i = i + 1;
    }
    proof {
        assert forall|j: int| !occurs_at(cs@, lit, j) by {
            if 0 <= j && j < i {
            }
        }
    }
    None
}

fn first_line_of(cs: &Vec<char>, end: usize) -> (r: Option<String>)
    requires
        end <= cs@.len(),
    ensures
        match r {
            Some(l) => first_line(cs@.take(end as int)) == Some(l@),
            None => first_line(cs@.take(end as int)).is_none(),
        },
{
    let ghost h = cs@.take(end as int);
    proof {
        reveal(first_line);
    }
    if end == 0 {
        return None;
    }
    let mut k: usize = 0;
    while k < end
        invariant
            end <= cs@.len(),
            h == cs@.take(end as int),
            k <= end,
            forall|j: int| 0 <= j < k ==> h[j] != '\n',
        decreases end - k,
    {
        if cs[k] == '\n' {
            proof {
                reveal(first_line);
                assert(h[k as int] == '\n');
                assert(h.contains('\n'));
                let w = choose|w: int| 0 <= w < h.len() && h[w] == '\n' && forall|j: int| 0 <= j < w ==> h[j] != '\n';
                if w < k {
                } else if w > k {
                }
            }
            if k > 0 && cs[k - 1] == '\r' {
                let l = string_of_range(cs.as_slice(), 0, k - 1);
                proof {
                    assert(l@ =~= h.take(k - 1));
                }
                return Some(l);
            } else {
                let l = string_of_range(cs.as_slice(), 0, k);
                proof {
                    assert(l@ =~= h.take(k as int));
                }
                return Some(l);
            }
        }
        k = k + 1;
    }
    proof {
        if h.contains('\n') {
            let w = choose|w: int| 0 <= w < h.len() && h[w] == '\n';
        }
    }
    let l = string_of_range(cs.as_slice(), 0, end);
    proof {
        assert(l@ =~= h);
    }
    Some(l)
}

fn split_tokens(s: &str) -> (r: Vec<String>)
    ensures
        r@.len() == tokens(s@).len(),
        forall|i: int| 0 <= i < r@.len() ==> #[trigger] r@[i]@ == tokens(s@)[i],
{
    let cs = chars_of(s);
    let n = cs.len();
    let mut done: Vec<String> = Vec::new();
    let mut cur: Vec<char> = Vec::new();
    let mut i: usize = 0;
    proof {
        assert(s@.skip(0) =~= s@);
        assert(done@.map_values(|t: String| t@) =~= Seq::<Seq<char>>::empty());
    }
    while i < n
        invariant
            n == cs@.len(),
            cs@ == s@,
            i <= n,
            tokens(s@) == scan_tokens(s@.skip(i as int), cur@, done@.map_values(|t: String| t@)),
        decreases n - i,
    {
        proof {
            assert(s@.skip(i as int)[0] == cs@[i as int]);
            assert(s@.skip(i as int).drop_first() =~= s@.skip(i + 1));
        }
        let c = cs[i];
        if is_whitespace(c) {
            if cur.len() > 0 {
                let ghost before = done@;
                let t = string_of(cur.as_slice());
                done.push(t);
                cur = Vec::new();
                proof {
                    assert(done@.map_values(|t: String| t@) =~= before.map_values(|t: String| t@).push(t@));
                    assert(cur@ =~= Seq::<char>::empty());
                }
            } else {
                proof {
                    assert(cur@ =~= Seq::<char>::empty());
                }
            }
        } else {
            cur.push(c);
        }
        i = i + 1;
    }
    proof {
        assert(s@.skip(n as int) =~= Seq::<char>::empty());
    }
    if cur.len() > 0 {
        let ghost before = done@;
        let t = string_of(cur.as_slice());
        done.push(t);
        proof {
            assert(done@.map_values(|t: String| t@) =~= before.map_values(|t: String| t@).push(t@));
        }
    }
    done
}

fn parse_u16(s: &str) -> (r: Option<u16>)
    ensures
        r == parse_u16_spec(s@),
{
    let cs = chars_of(s);
    let n = cs.len();
    let start: usize = if n > 0 && cs[0] == '+' {
        1
    } else {
        0
    };
    let ghost d = if s@.len() > 0 && s@[0] == '+' {
        s@.drop_first()
    } else {
        s@
    };
    proof {
        assert(d =~= s@.skip(start as int));
    }
    if start == n {
        proof {
            assert(d.len() == 0);
        }
        return None;
    }
    let mut acc: u32 = 0;
    let mut i: usize = start;
    while i < n
        invariant
            n == cs@.len(),
            cs@ == s@,
            d == s@.skip(start as int),
            d == (if s@.len() > 0 && s@[0] == '+' {
                s@.drop_first()
            } else {
                s@
            }),
            start <= i <= n,
            all_digits(s@.subrange(start as int, i as int)),
            acc == if digits_value(s@.subrange(start as int, i as int)) <= 65535 {
                digits_value(s@.subrange(start as int, i as int))
            } else {
                65536
            },
        decreases n - i,
    {
        let c = cs[i];
        if c < '0' || c > '9' {
            proof {
                assert(d[i - start] == c);
                assert(!all_digits(d));
            }
            return None;
        }
        let digit: u32 = (c as u32) - ('0' as u32);
        proof {
            let p = s@.subrange(start as int, i as int);
            let q = s@.subrange(start as int, i + 1);
            assert(q.drop_last() =~= p);
            assert(q.last() == c);
        }
        let next: u32 = acc * 10 + digit;
        acc = if next > 65535 {
            65536
        } else {
            next
        };
        i = i + 1;
    }
    proof {
        assert(s@.subrange(start as int, n as int) =~= d);
    }
    if acc <= 65535 {
        Some(acc as u16)
    } else {
        None
    }
}

fn preview_of(cs: &Vec<char>) -> (r: String)
    ensures
        r@ == byte_prefix(cs@, 200),
{
    let n = cs.len();
    let mut size: u64 = 0;
    let mut i: usize = 0;
    let mut full = false;
    while i < n && !full
        invariant
            n == cs@.len(),
            i <= n,
            size == utf8_size(cs@.take(i as int)),
            size <= 200,
            full ==> i < n && utf8_size(cs@.take(i + 1)) > 200,
        decreases n - i + if full { 0int } else { 1int },
    {
        let c = cs[i];
        let w: u64 = if (c as u32) < 0x80 {
            1
        } else if (c as u32) < 0x800 {
            2
        } else if (c as u32) < 0x10000 {
            3
        } else {
            4
        };
        proof {
            assert(cs@.take(i + 1).drop_last() =~= cs@.take(i as int));
            assert(cs@.take(i + 1).last() == c);
            assert(utf8_size(cs@.take(i + 1)) == size + w);
        }
        if size + w > 200 {
            full = true;
        } else {
            size = size + w;
            i = i + 1;
        }
    }
    proof {
        lemma_byte_prefix(cs@, i as int);
    }
    string_of_range(cs.as_slice(), 0, i)
}

proof fn lemma_utf8_size_mono(s: Seq<char>, k: int)
    requires
        0 <= k <= s.len(),
    ensures
        utf8_size(s.take(k)) <= utf8_size(s),
    decreases s.len(),
{
    if k < s.len() {
        assert(s.drop_last().take(k) =~= s.take(k));
        lemma_utf8_size_mono(s.drop_last(), k);
    } else {
        assert(s.take(k) =~= s);
    }
}

proof fn lemma_byte_prefix(s: Seq<char>, i: int)
    requires
        0 <= i <= s.len(),
        utf8_size(s.take(i)) <= 200,
        i < s.len() ==> utf8_size(s.take(i + 1)) > 200,
    ensures
        byte_prefix(s, 200) == s.take(i),
    decreases s.len(),
{
    if i == s.len() {
        assert(s.take(i) =~= s);
    } else {
        lemma_utf8_size_mono(s, i + 1);
        assert(s.drop_last().take(i) =~= s.take(i));
        if i + 1 <= s.drop_last().len() {
            assert(s.drop_last().take(i + 1) =~= s.take(i + 1));
        }
        lemma_byte_prefix(s.drop_last(), i);
    }
}

/// Reads the status code and body of a response text.
pub fn parse_response_text(text: &str) -> (r: Result<(u16, String), ResponseError>)
    ensures
        match response_spec(text@) {
            Ok((status, body)) => r matches Ok((st, b)) && st == status && b@ == body,
            Err(ResponseFault::NoHeaderSplit) => r matches Err(ResponseError::NoHeaderSplit { .. }),
            Err(ResponseFault::Empty) => r matches Err(ResponseError::Empty),
            Err(ResponseFault::NoStatusCode) => r matches Err(ResponseError::NoStatusCode),
        },
        r matches Err(ResponseError::NoHeaderSplit { bytes, preview }) ==> preview@ == byte_prefix(text@, 200),
{
    let cs = chars_of(text);
    let i = match find_blank_line(&cs) {
        Some(i) => i,
        None => {
            proof {
                assert(response_spec(text@) == Err::<(u16, Seq<char>), ResponseFault>(ResponseFault::NoHeaderSplit));
            }
            return Err(ResponseError::NoHeaderSplit { bytes: 0, preview: preview_of(&cs) });
        },
    };
    let line = match first_line_of(&cs, i) {
        Some(l) => l,
        None => {
            proof {
                assert(response_spec(text@) == Err::<(u16, Seq<char>), ResponseFault>(ResponseFault::Empty));
            }
            return Err(ResponseError::Empty);
        },
    };
    let ghost tl = tokens(line@);
    let toks = split_tokens(line.as_str());
    if toks.len() < 2 {
        proof {
            assert(response_spec(text@) == Err::<(u16, Seq<char>), ResponseFault>(ResponseFault::NoStatusCode));
        }
        return Err(ResponseError::NoStatusCode);
    }
    let status = match parse_u16(toks[1].as_str()) {
        Some(s) => s,
        None => {
            proof {
                assert(toks@[1]@ == tl[1]);
                assert(response_spec(text@) == Err::<(u16, Seq<char>), ResponseFault>(ResponseFault::NoStatusCode));
            }
            return Err(ResponseError::NoStatusCode);
        },
    };
    let n = cs.len();
    let body = string_of_range(cs.as_slice(), i + 4, n);
    proof {
        assert(body@ =~= text@.skip(i + 4));
        assert(toks@[1]@ == tl[1]);
        assert(response_spec(text@) == Ok::<(u16, Seq<char>), ResponseFault>((status, body@)));
    }
    Ok((status, body))
}

/// Reads the status code and body of the raw bytes the daemon sent,
/// decoded leniently as UTF-8. A response without a blank line reports
/// its size in bytes.
pub fn parse_response(buf: &[u8]) -> (r: Result<(u16, String), ResponseError>)
    ensures
        match response_spec(utf8_lossy_spec(buf@)) {
            Ok((status, body)) => r matches Ok((st, b)) && st == status && b@ == body,
            Err(ResponseFault::NoHeaderSplit) => r matches Err(ResponseError::NoHeaderSplit { bytes, preview }) && bytes == buf@.len()
                && preview@ == byte_prefix(utf8_lossy_spec(buf@), 200),
            Err(ResponseFault::Empty) => r matches Err(ResponseError::Empty),
            Err(ResponseFault::NoStatusCode) => r matches Err(ResponseError::NoStatusCode),
        },
{
    let text = utf8_lossy(buf);
    match parse_response_text(text.as_str()) {
        Ok(v) => Ok(v),
        Err(ResponseError::NoHeaderSplit { bytes: _, preview }) => Err(
            ResponseError::NoHeaderSplit { bytes: buf.len(), preview },
        ),
        Err(e) => Err(e),
    }
}

// ---------------------------------------------------------------------
// Liveness
// ---------------------------------------------------------------------
/// How a connection attempt to the socket ended.
#[derive(Clone, Copy, Debug, PartialEq, Eq, Structural)]
pub enum ConnectOutcome {
    Connected,
    /// Nobody is listening.
    Refused,
    /// The socket file vanished.
    NotFound,
    /// Any other failure.
    Failed,
}

/// What a liveness check concludes.
#[derive(Clone, Copy, Debug, PartialEq, Eq, Structural)]
pub enum Liveness {
    Running,
    NotRunning,
    /// An unexpected failure, to be reported.
    Unknown,
}

/// The daemon runs iff its socket exists and accepts a connection; a
/// refused connection or a vanished socket means it does not; any other
/// failure is reported. Without a socket file nothing is attempted.
pub fn liveness(socket_exists: bool, connect: ConnectOutcome) -> (r: Liveness)
    ensures
        !socket_exists ==> r == Liveness::NotRunning,
        socket_exists ==> r == (match connect {
            ConnectOutcome::Connected => Liveness::Running,
            ConnectOutcome::Refused => Liveness::NotRunning,
            ConnectOutcome::NotFound => Liveness::NotRunning,
            ConnectOutcome::Failed => Liveness::Unknown,
        }),
{
    if !socket_exists {
        return Liveness::NotRunning;
    }
    match connect {
        ConnectOutcome::Connected => Liveness::Running,
        ConnectOutcome::Refused => Liveness::NotRunning,
        ConnectOutcome::NotFound => Liveness::NotRunning,
        ConnectOutcome::Failed => Liveness::Unknown,
    }
}

} // verus!
