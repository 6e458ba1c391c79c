use vstd::prelude::*;
use vstd::string::StrSliceExecFns;
use vstd::string::StringExecFns;
use vstd::string::StringSliceAdditionalSpecFns;

verus! {

/// Credentials for HTTP basic authentication, carried unchanged to the
/// transport with every request.
pub struct Authentication {
    pub username: String,
    pub password: String,
}

impl Authentication {
    pub fn new(username: String, password: String) -> (r: Authentication)
        ensures
            r.username == username,
            r.password == password,
    {
        Authentication { username, password }
    }
}

/// Relies on String::push: appends the given character at the end of the
/// string.
#[verifier::external_body]
fn push_char(s: &mut String, c: char)
    ensures
        final(s)@ == old(s)@.push(c),
{
    s.push(c);
}

/// Character-for-character equality of two string slices.
pub fn str_eq(a: &str, b: &str) -> (r: bool)
    ensures
        r == (a@ == b@),
{
    let a_len = a.unicode_len();
    let b_len = b.unicode_len();
    if a_len != b_len {
        return false;
    }
    let mut i: usize = 0;
    while i < a_len
        invariant
            i <= a_len,
            a_len == a@.len(),
            b_len == b@.len(),
            a_len == b_len,
            forall|j: int| 0 <= j < i ==> a@[j] == b@[j],
        decreases a_len - i,
    {
        if a.get_char(i) != b.get_char(i) {
            return false;
        }
        i += 1;
    }
    proof {
        assert(a@ =~= b@);
    }
    true
}

/// Whether the string contains the given character.
pub fn str_contains_char(s: &str, c: char) -> (r: bool)
    ensures
        r == s@.contains(c),
{
    let n = s.unicode_len();
    let mut i: usize = 0;
    while i < n
        invariant
            i <= n,
            n == s@.len(),
            forall|j: int| 0 <= j < i ==> s@[j] != c,
        decreases n - i,
    {
        if s.get_char(i) == c {
            return true;
        }
        i += 1;
    }
    false
}

/// The character for a single decimal digit.
pub open spec fn dec_digit(d: int) -> char {
    if d == 0 {
        '0'
    } else if d == 1 {
        '1'
    } else if d == 2 {
        '2'
    } else if d == 3 {
        '3'
    } else if d == 4 {
        '4'
    } else if d == 5 {
        '5'
    } else if d == 6 {
        '6'
    } else if d == 7 {
        '7'
    } else if d == 8 {
        '8'
    } else {
        '9'
    }
}

/// The decimal digit string of a non-negative integer, most significant
/// digit first and without leading zeroes.
pub open spec fn dec_str(n: int) -> Seq<char>
    decreases n,
{
    if n <= 9 {
        seq![dec_digit(n)]
    } else {
        dec_str(n / 10).push(dec_digit(n % 10))
    }
}

fn dec_digit_char(d: u64) -> (c: char)
    requires
        d <= 9,
    ensures
        c == dec_digit(d as int),
{
    match d {
        0 => '0',
        1 => '1',
        2 => '2',
        3 => '3',
        4 => '4',
        5 => '5',
        6 => '6',
        7 => '7',
        8 => '8',
        _ => '9',
    }
}

/// Renders an unsigned integer in decimal.
pub fn u64_to_dec(n: u64) -> (r: String)
    ensures
        r@ == dec_str(n as int),
    decreases n,
{
    if n <= 9 {
        let mut s = String::new();
        push_char(&mut s, dec_digit_char(n));
        proof {
            assert(Seq::<char>::empty().push(dec_digit(n as int)) =~= seq![dec_digit(n as int)]);
        }
        s
    } else {
        let mut s = u64_to_dec(n / 10);
        push_char(&mut s, dec_digit_char(n % 10));
        s
    }
}

/// The uppercase hexadecimal character for a value below sixteen.
pub open spec fn hex_digit(d: int) -> char {
    if d < 10 {
        dec_digit(d)
    } else if d == 10 {
        'A'
    } else if d == 11 {
        'B'
    } else if d == 12 {
        'C'
    } else if d == 13 {
        'D'
    } else if d == 14 {
        'E'
    } else {
        'F'
    }
}

fn hex_digit_char(d: u8) -> (c: char)
    requires
        d <= 15,
    ensures
        c == hex_digit(d as int),
{
    match d {
        0 => '0',
        1 => '1',
        2 => '2',
        3 => '3',
        4 => '4',
        5 => '5',
        6 => '6',
        7 => '7',
        8 => '8',
        9 => '9',
        10 => 'A',
        11 => 'B',
        12 => 'C',
        13 => 'D',
        14 => 'E',
        _ => 'F',
    }
}

/// A byte that passes through query encoding unchanged: printable ASCII,
/// except `&`, which is reserved so that an embedded `&` in a name cannot
/// smuggle an extra query parameter.
pub open spec fn retained_byte(b: u8) -> bool {
    0x20 <= b <= 0x7e && b != 0x26
}

/// How one byte is rendered by query encoding: itself, or `%` and two
/// uppercase hexadecimal digits.
pub open spec fn encoded_byte(b: u8) -> Seq<char> {
    if retained_byte(b) {
        seq![b as char]
    } else {
        seq!['%', hex_digit(b as int / 16), hex_digit(b as int % 16)]
    }
}

/// The query encoding of a byte string: every control byte, non-ASCII
/// byte and `&` becomes a `%XX` escape.
pub open spec fn percent_encoded(bytes: Seq<u8>) -> Seq<char>
    decreases bytes.len(),
{
    if bytes.len() == 0 {
        Seq::empty()
    } else {
        percent_encoded(bytes.drop_last()) + encoded_byte(bytes.last())
    }
}

/// Percent-encodes a string for use as a query value, escaping C0
/// controls, every byte outside printable ASCII (so all non-ASCII
/// characters, via their UTF-8 bytes), and `&`.
pub fn percent_encode(s: &str) -> (r: String)
    ensures
        r@ == percent_encoded(s.spec_bytes()),
{
    let bytes = s.as_bytes();
    let mut r = String::new();
    let mut i: usize = 0;
    while i < bytes.len()
        invariant
            i <= bytes@.len(),
            bytes@ == s.spec_bytes(),
            r@ == percent_encoded(bytes@.take(i as int)),
        decreases bytes@.len() - i,
    {
        let b = bytes[i];
        if 0x20 <= b && b <= 0x7e && b != 0x26 {
            push_char(&mut r, b as char);
        } else {
            push_char(&mut r, '%');
            push_char(&mut r, hex_digit_char(b / 16));
            push_char(&mut r, hex_digit_char(b % 16));
        }
        proof {
            let taken = bytes@.take(i + 1);
            assert(taken.drop_last() =~= bytes@.take(i as int));
            assert(taken.last() == bytes@[i as int]);
            assert(percent_encoded(taken) == percent_encoded(bytes@.take(i as int)) + encoded_byte(
                bytes@[i as int],
            ));
            assert(r@ =~= percent_encoded(bytes@.take(i as int)) + encoded_byte(bytes@[i as int]));
        }
        i += 1;
    }
    proof {
        assert(bytes@.take(bytes@.len() as int) =~= bytes@);
    }
    r
}

/// The path of one page request: the collection's path with the bounded
/// page query appended, continuing an existing query string if the path
/// already carries one.
pub open spec fn paged_path_spec(path: Seq<char>, start: int) -> Seq<char> {
    path + (if path.contains('?') {
        "&"@
    } else {
        "?"@
    }) + "limit=1000&start="@ + dec_str(start)
}

/// Builds the path for one page request at the given offset.
pub fn paged_path(path: &str, start: u64) -> (r: String)
    ensures
        r@ == paged_path_spec(path@, start as int),
{
    let mut r = path.to_owned();
    if str_contains_char(path, '?') {
        r.append("&");
    } else {
        r.append("?");
    }
    r.append("limit=1000&start=");
    let digits = u64_to_dec(start);
    r.append(digits.as_str());
    r
}

/// One page of a cursor-paginated collection, as the server returns it.
#[derive(Debug)]
pub struct Page<T> {
    pub size: u64,
    pub limit: u64,
    pub is_last_page: bool,
    pub values: Vec<T>,
    pub start: u64,
}

/// One line of a line-oriented page.
#[derive(Debug)]
pub struct Line {
    pub text: String,
}

/// One page of a line-oriented cursor, the shape used for file contents.
#[derive(Debug)]
pub struct LinePage {
    pub lines: Vec<Line>,
    pub start: u64,
    pub size: u64,
    pub is_last_page: bool,
}

impl LinePage {
    /// The same cursor with its lines reduced to their text, so the
    /// line-oriented shape runs through the one generic pagination
    /// algorithm. The line cursor carries no limit of its own, so the
    /// converted page reports its size there.
    pub fn into_page(self) -> (r: Page<String>)
        ensures
            r.size == self.size,
            r.limit == self.size,
            r.is_last_page == self.is_last_page,
            r.start == self.start,
            r.values@.len() == self.lines@.len(),
            forall|i: int| 0 <= i < self.lines@.len() ==> r.values@[i]@ == self.lines@[i].text@,
    {
        let mut values: Vec<String> = Vec::new();
        let mut i: usize = 0;
        while i < self.lines.len()
            invariant
                i <= self.lines@.len(),
                values@.len() == i,
                forall|j: int| 0 <= j < i ==> values@[j]@ == self.lines@[j].text@,
            decreases self.lines@.len() - i,
        {
            values.push(self.lines[i].text.clone());
            i += 1;
        }
        Page {
            size: self.size,
            limit: self.size,
            is_last_page: self.is_last_page,
            values,
            start: self.start,
        }
    }
}

/// The cursor-pagination driver. The caller repeatedly asks for the next
/// request path, performs the fetch, and hands the decoded page back;
/// `done` follows the server's last-page flag alone, never the page size,
/// so an empty page that is not marked last is polled again.
pub struct PageFetcher<T> {
    pub start: u64,
    pub values: Vec<T>,
    pub done: bool,
}

impl<T> PageFetcher<T> {
    /// A fresh traversal, positioned at offset zero with nothing
    /// accumulated.
    pub fn new() -> (r: PageFetcher<T>)
        ensures
            r.start == 0,
            r.values@ =~= Seq::<T>::empty(),
            !r.done,
    {
        PageFetcher { start: 0, values: Vec::new(), done: false }
    }

    /// The path of the next page request at the current offset.
    pub fn request_path(&self, path: &str) -> (r: String)
        ensures
            r@ == paged_path_spec(path@, self.start as int),
    {
        paged_path(path, self.start)
    }

    /// Folds one received page in: its values are appended in received
    /// order, the traversal ends exactly when the page is marked last,
    /// and otherwise the offset advances by the page's reported size.
    pub fn accept(&mut self, page: Page<T>)
        requires
            !old(self).done,
            page.is_last_page || old(self).start + page.size <= u64::MAX,
        ensures
            final(self).values@ == old(self).values@ + page.values@,
            final(self).done == page.is_last_page,
            page.is_last_page ==> final(self).start == old(self).start,
            !page.is_last_page ==> final(self).start == old(self).start + page.size,
    {
        let mut page = page;
        self.values.append(&mut page.values);
        if page.is_last_page {
            self.done = true;
        } else {
            self.start = self.start + page.size;
        }
    }

    /// Whether the last page has been received.
    pub fn is_done(&self) -> (r: bool)
        ensures
            r == self.done,
    {
        self.done
    }

    /// The accumulated values, in the order the server returned them.
    pub fn into_values(self) -> (r: Vec<T>)
        ensures
            r@ == self.values@,
    {
        self.values
    }
}

} // verus!
