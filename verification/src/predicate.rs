//! The predicates of the `test` command: tests on strings, on integers and
//! on the status of files.

use crate::text::chars_of;
use vstd::prelude::*;

verus! {

/// What the file system knows of one path, as far as `test` asks.
#[derive(Clone, Copy, Debug, PartialEq, Eq)]
pub struct FileStatus {
    /// Whether anything exists at the path.
    pub exists: bool,
    /// Whether it is a directory.
    pub directory: bool,
    /// Its size in bytes.
    pub size: u64,
    /// When it was last modified, on any clock that both operands share.
    pub modified: u64,
}

/// Whether `c` is one of the decimal digits `0` to `9`.
pub open spec fn is_digit(c: char) -> bool {
    '0' <= c <= '9'
}

/// Executable form of [`is_digit`].
pub fn is_digit_char(c: char) -> (r: bool)
    ensures
        r == is_digit(c),
{
    '0' <= c && c <= '9'
}

/// Whether every character of `s` is a decimal digit.
pub open spec fn all_digits(s: Seq<char>) -> bool {
    forall|i: int| 0 <= i < s.len() ==> is_digit(#[trigger] s[i])
}

/// The number that a sequence of decimal digits denotes.
pub open spec fn digits_value(s: Seq<char>) -> int
    decreases s.len(),
{
    if s.len() == 0 {
        0
    } else {
        digits_value(s.drop_last()) * 10 + (s.last() as int - '0' as int)
    }
}

/// The integer that a text denotes: an optional sign, `+` or `-`, followed
/// by at least one decimal digit and nothing else, with a value that a
/// 64-bit signed integer holds. Any other text denotes none.
pub open spec fn parse_int(s: Seq<char>) -> Option<int> {
    let signed = s.len() > 0 && (s[0] == '+' || s[0] == '-');
    let body = if signed {
        s.skip(1)
    } else {
        s
    };
    let value = if s.len() > 0 && s[0] == '-' {
        -digits_value(body)
    } else {
        digits_value(body)
    };
    if body.len() == 0 || !all_digits(body) {
        None
    } else if i64::MIN <= value <= i64::MAX {
        Some(value)
    } else {
        None
    }
}

/// A sequence of digits denotes at least what any of its prefixes denotes.
pub proof fn lemma_digits_value_grows(s: Seq<char>, k: int)
    requires
        all_digits(s),
        0 <= k <= s.len(),
    ensures
        0 <= digits_value(s.take(k)) <= digits_value(s),
    decreases s.len() - k,
{
    if k == s.len() {
        assert(s.take(k) =~= s);
        lemma_digits_value_nonnegative(s);
    } else {
        lemma_digits_value_grows(s, k + 1);
        let t = s.take(k + 1);
        assert(t.drop_last() =~= s.take(k));
        assert(t.last() == s[k]);
        assert(is_digit(s[k]));
        lemma_digits_value_nonnegative(s.take(k));
    }
}

/// A sequence of digits denotes no negative number.
pub proof fn lemma_digits_value_nonnegative(s: Seq<char>)
    requires
        all_digits(s),
    ensures
        0 <= digits_value(s),
    decreases s.len(),
{
    if s.len() > 0 {
        assert(is_digit(s.last()));
        lemma_digits_value_nonnegative(s.drop_last());
    }
}

/// Parses `v[from..]` as an integer.
pub(crate) fn parse_int_chars(v: &Vec<char>, from: usize) -> (r: Option<i64>)
    requires
        from <= v.len(),
    ensures
        match parse_int(v@.skip(from as int)) {
            Some(n) => r == Some(n as i64),
            None => r is None,
        },
{
    let ghost s = v@.skip(from as int);
    let n = v.len();
    let negative = from < n && v[from] == '-';
    let start = if from < n && (v[from] == '+' || v[from] == '-') {
        from + 1
    } else {
        from
    };
    let ghost body = v@.skip(start as int);
    proof {
        if start > from {
            assert(s.skip(1) =~= body);
        }
    }
    if start >= n {
        return None;
    }
    let limit: i128 = 9223372036854775808i128;
    let mut acc: i128 = 0;
    let mut i: usize = start;
    while i < n
        invariant
            start <= i <= n,
            n == v.len(),
            body == v@.skip(start as int),
            s == v@.skip(from as int),
            body == if s.len() > 0 && (s[0] == '+' || s[0] == '-') {
                s.skip(1)
            } else {
                s
            },
            all_digits(body.take(i - start)),
            acc == digits_value(body.take(i - start)),
            0 <= acc <= limit,
            limit == 9223372036854775808i128,
        decreases n - i,
    {
        let c = v[i];
        if !is_digit_char(c) {
            proof {
                assert(body[i - start] == c);
            }
            return None;
        }
        let d: i128 = (c as u32 - '0' as u32) as i128;
        acc = acc * 10 + d;
        proof {
            let t = body.take(i - start + 1);
            assert(t.drop_last() =~= body.take(i - start));
            assert(t.last() == c);
            assert forall|j: int| 0 <= j < t.len() implies is_digit(#[trigger] t[j]) by {
                if j < i - start {
                    assert(t[j] == body.take(i - start)[j]);
                }
            }
        }
        if acc > limit {
            proof {
                if all_digits(body) {
                    lemma_digits_value_grows(body, i - start + 1);
                }
            }
            return None;
        }
        i += 1;
    }
    proof {
        assert(body.take(n - start) =~= body);
    }
    if negative {
        Some((-acc) as i64)
    } else if acc == limit {
        None
    } else {
        Some(acc as i64)
    }
}

/// The index that a text denotes, as `usize::from_str` reads it: an
/// optional `+`, followed by at least one decimal digit and nothing else,
/// with a value that a `usize` holds. Any other text, one with a `-` sign
/// included, denotes none.
pub open spec fn parse_unsigned(s: Seq<char>) -> Option<int> {
    let body = if s.len() > 0 && s[0] == '+' {
        s.skip(1)
    } else {
        s
    };
    if body.len() == 0 || !all_digits(body) || digits_value(body) > usize::MAX {
        None
    } else {
        Some(digits_value(body))
    }
}

/// Parses a text as an index.
pub fn parse_usize(s: &str) -> (r: Option<usize>)
    ensures
        match parse_unsigned(s@) {
            Some(n) => r == Some(n as usize) && 0 <= n <= usize::MAX,
            None => r is None,
        },
{
    let v = chars_of(s);
    let n = v.len();
    let start: usize = if n > 0 && v[0] == '+' {
        1
    } else {
        0
    };
    let ghost body = v@.skip(start as int);
    proof {
        assert(v@.skip(0) =~= v@);
    }
    if start >= n {
        return None;
    }
    let mut acc: usize = 0;
    let mut i: usize = start;
    proof {
        assert(body.take(0) =~= Seq::<char>::empty());
    }
    while i < n
        invariant
            start <= i <= n,
            n == v.len(),
            v@ == s@,
            body == v@.skip(start as int),
            body == if s@.len() > 0 && s@[0] == '+' {
                s@.skip(1)
            } else {
                s@
            },
            all_digits(body.take(i - start)),
            acc == digits_value(body.take(i - start)),
        decreases n - i,
    {
        let c = v[i];
        if !is_digit_char(c) {
            proof {
                assert(body[i - start] == c);
            }
            return None;
        }
        let d: usize = (c as u32 - '0' as u32) as usize;
        proof {
            let t = body.take(i - start + 1);
            assert(t.drop_last() =~= body.take(i - start));
            assert(t.last() == c);
            assert forall|j: int| 0 <= j < t.len() implies is_digit(#[trigger] t[j]) by {
                if j < i - start {
                    assert(t[j] == body.take(i - start)[j]);
                }
            }
            if all_digits(body) {
                lemma_digits_value_grows(body, i - start + 1);
            }
        }
        if acc > (usize::MAX - d) / 10 {
            return None;
        }
        acc = acc * 10 + d;
        i += 1;
    }
    proof {
        assert(body.take(n - start) =~= body);
        lemma_digits_value_nonnegative(body);
    }
    Some(acc)
}

/// Parses a text as an integer.
pub fn parse_integer(s: &str) -> (r: Option<i64>)
    ensures
        match parse_int(s@) {
            Some(n) => r == Some(n as i64),
            None => r is None,
        },
{
    let v = chars_of(s);
    assert(v@.skip(0) =~= v@);
    parse_int_chars(&v, 0)
}

/// The length of the longest common leading run of characters that are no
/// digits: the first index, from `i` on, at which one of the two texts ends
/// or holds a digit.
pub open spec fn prefix_run(a: Seq<char>, b: Seq<char>, i: int) -> int
    decreases a.len() - i,
{
    if i < 0 || i >= a.len() || i >= b.len() || is_digit(a[i]) || is_digit(b[i]) {
        i
    } else {
        prefix_run(a, b, i + 1)
    }
}

/// The two integers that are left when the longest common leading run of
/// characters that are no digits is taken off both texts; none if what is
/// left of either text denotes no integer.
pub open spec fn parse_prefixed(a: Seq<char>, b: Seq<char>) -> Option<(int, int)> {
    let k = prefix_run(a, b, 0);
    match (parse_int(a.skip(k)), parse_int(b.skip(k))) {
        (Some(x), Some(y)) => Some((x, y)),
        _ => None,
    }
}

/// The first text is ordered before the second, character by character.
pub open spec fn lex_less(a: Seq<char>, b: Seq<char>, i: int) -> bool
    decreases a.len() - i,
{
    if i < 0 || i >= b.len() {
        false
    } else if i >= a.len() {
        true
    } else if a[i] != b[i] {
        (a[i] as u32) < (b[i] as u32)
    } else {
        lex_less(a, b, i + 1)
    }
}

/// Whether `a` is lexicographically less than `b`.
pub open spec fn text_less(a: Seq<char>, b: Seq<char>) -> bool {
    lex_less(a, b, 0)
}

/// The strings are equal.
pub fn strings_equal(a: &str, b: &str) -> (r: bool)
    ensures
        r == (a@ == b@),
{
    crate::text::same_text(a, b)
}

/// The strings are not equal.
pub fn strings_not_equal(a: &str, b: &str) -> (r: bool)
    ensures
        r == (a@ != b@),
{
    !crate::text::same_text(a, b)
}

/// The length of the string is nonzero.
pub fn string_nonzero_length(s: &str) -> (r: bool)
    ensures
        r == (s@.len() > 0),
{
    !s.is_empty()
}

/// The length of the string is zero.
pub fn string_zero_length(s: &str) -> (r: bool)
    ensures
        r == (s@.len() == 0),
{
    s.is_empty()
}

/// `a` is lexicographically less than `b`.
pub fn strings_lexographically_less_than(a: &str, b: &str) -> (r: bool)
    ensures
        r == text_less(a@, b@),
{
    let x = chars_of(a);
    let y = chars_of(b);
    let mut i: usize = 0;
    loop
        invariant
            i <= x.len(),
            i <= y.len(),
            x@ == a@,
            y@ == b@,
            text_less(a@, b@) == lex_less(a@, b@, i as int),
        decreases x.len() - i,
    {
        if i >= y.len() {
            return false;
        }
        if i >= x.len() {
            return true;
        }
        if x[i] != y[i] {
            return (x[i] as u32) < (y[i] as u32);
        }
        i += 1;
    }
}

/// `a` is lexicographically less than or equal to `b`.
pub fn strings_lexographically_less_than_or_equal_to(a: &str, b: &str) -> (r: bool)
    ensures
        r == !text_less(b@, a@),
{
    !strings_lexographically_less_than(b, a)
}

/// `a` is lexicographically greater than `b`.
pub fn strings_lexographically_greater_than(a: &str, b: &str) -> (r: bool)
    ensures
        r == text_less(b@, a@),
{
    strings_lexographically_less_than(b, a)
}

/// `a` is lexicographically greater than or equal to `b`.
pub fn strings_lexographically_greater_than_or_equal_to(a: &str, b: &str) -> (r: bool)
    ensures
        r == !text_less(a@, b@),
{
    !strings_lexographically_less_than(a, b)
}

/// The six orders in which two integers are compared.
#[derive(Clone, Copy, Debug, PartialEq, Eq)]
pub enum Relation {
    Equal,
    NotEqual,
    Less,
    LessOrEqual,
    Greater,
    GreaterOrEqual,
}

/// Whether `x` stands in the given relation to `y`.
pub open spec fn holds(relation: Relation, x: int, y: int) -> bool {
    match relation {
        Relation::Equal => x == y,
        Relation::NotEqual => x != y,
        Relation::Less => x < y,
        Relation::LessOrEqual => x <= y,
        Relation::Greater => x > y,
        Relation::GreaterOrEqual => x >= y,
    }
}

/// Executable form of [`holds`].
pub fn relation_holds(relation: Relation, x: i64, y: i64) -> (r: bool)
    ensures
        r == holds(relation, x as int, y as int),
{
    match relation {
        Relation::Equal => x == y,
        Relation::NotEqual => x != y,
        Relation::Less => x < y,
        Relation::LessOrEqual => x <= y,
        Relation::Greater => x > y,
        Relation::GreaterOrEqual => x >= y,
    }
}

/// What a comparison of two texts as integers yields: none if either text
/// denotes no integer.
pub open spec fn integers_related(relation: Relation, a: Seq<char>, b: Seq<char>) -> Option<
    bool,
> {
    match (parse_int(a), parse_int(b)) {
        (Some(x), Some(y)) => Some(holds(relation, x, y)),
        _ => None,
    }
}

/// Compares two texts as integers.
pub fn integers_compare(relation: Relation, a: &str, b: &str) -> (r: Option<bool>)
    ensures
        r == integers_related(relation, a@, b@),
{
    match parse_integer(a) {
        None => None,
        Some(x) => match parse_integer(b) {
            None => None,
            Some(y) => Some(relation_holds(relation, x, y)),
        },
    }
}

/// `a` is equal to `b`, as integers.
pub fn integers_equal(a: &str, b: &str) -> (r: Option<bool>)
    ensures
        r == integers_related(Relation::Equal, a@, b@),
{
    integers_compare(Relation::Equal, a, b)
}

/// `a` is not equal to `b`, as integers.
pub fn integers_not_equal(a: &str, b: &str) -> (r: Option<bool>)
    ensures
        r == integers_related(Relation::NotEqual, a@, b@),
{
    integers_compare(Relation::NotEqual, a, b)
}

/// `a` is less than `b`, as integers.
pub fn integers_less_than(a: &str, b: &str) -> (r: Option<bool>)
    ensures
        r == integers_related(Relation::Less, a@, b@),
{
    integers_compare(Relation::Less, a, b)
}

/// `a` is less than or equal to `b`, as integers.
pub fn integers_less_than_or_equal_to(a: &str, b: &str) -> (r: Option<bool>)
    ensures
        r == integers_related(Relation::LessOrEqual, a@, b@),
{
    integers_compare(Relation::LessOrEqual, a, b)
}

/// `a` is greater than `b`, as integers.
pub fn integers_greater_than(a: &str, b: &str) -> (r: Option<bool>)
    ensures
        r == integers_related(Relation::Greater, a@, b@),
{
    integers_compare(Relation::Greater, a, b)
}

/// `a` is greater than or equal to `b`, as integers.
pub fn integers_greater_than_or_equal_to(a: &str, b: &str) -> (r: Option<bool>)
    ensures
        r == integers_related(Relation::GreaterOrEqual, a@, b@),
{
    integers_compare(Relation::GreaterOrEqual, a, b)
}

/// What a comparison yields after the common leading run of characters that
/// are no digits is taken off both texts.
pub open spec fn prefixed_related(relation: Relation, a: Seq<char>, b: Seq<char>) -> Option<
    bool,
> {
    match parse_prefixed(a, b) {
        Some((x, y)) => Some(holds(relation, x, y)),
        None => None,
    }
}

/// Compares two texts as integers after taking their common leading run of
/// characters that are no digits off both.
pub fn integers_prefix_compare(relation: Relation, a: &str, b: &str) -> (r: Option<bool>)
    ensures
        r == prefixed_related(relation, a@, b@),
{
    let x = chars_of(a);
    let y = chars_of(b);
    let mut k: usize = 0;
    while k < x.len() && k < y.len() && !is_digit_char(x[k]) && !is_digit_char(y[k])
        invariant
            k <= x.len(),
            k <= y.len(),
            prefix_run(x@, y@, 0) == prefix_run(x@, y@, k as int),
        decreases x.len() - k,
    {
        k += 1;
    }
    match parse_int_chars(&x, k) {
        None => None,
        Some(m) => match parse_int_chars(&y, k) {
            None => None,
            Some(n) => Some(relation_holds(relation, m, n)),
        },
    }
}

/// `a` is greater than `b` after stripping off the common non-numeric
/// prefix.
pub fn integers_prefix_greater_than(a: &str, b: &str) -> (r: Option<bool>)
    ensures
        r == prefixed_related(Relation::Greater, a@, b@),
{
    integers_prefix_compare(Relation::Greater, a, b)
}

/// `a` is less than `b` after stripping off the common non-numeric prefix.
pub fn integers_prefix_less_than(a: &str, b: &str) -> (r: Option<bool>)
    ensures
        r == prefixed_related(Relation::Less, a@, b@),
{
    integers_prefix_compare(Relation::Less, a, b)
}

/// The file exists and is a directory.
pub fn file_exists_and_is_directory(file: &FileStatus) -> (r: bool)
    ensures
        r == (file.exists && file.directory),
{
    file.exists && file.directory
}

/// The file exists.
pub fn file_exists(file: &FileStatus) -> (r: bool)
    ensures
        r == file.exists,
{
    file.exists
}

/// The file exists and is not a directory.
pub fn file_exists_and_is_not_directory(file: &FileStatus) -> (r: bool)
    ensures
        r == (file.exists && !file.directory),
{
    file.exists && !file.directory
}

/// The file exists and has a size greater than zero.
pub fn file_exists_and_size_greater_than_zero(file: &FileStatus) -> (r: bool)
    ensures
        r == (file.exists && file.size > 0),
{
    file.exists && file.size > 0
}

/// Both files exist and the first was modified after the second.
pub fn file_newer_than(first: &FileStatus, second: &FileStatus) -> (r: bool)
    ensures
        r == (first.exists && second.exists && first.modified > second.modified),
{
    first.exists && second.exists && first.modified > second.modified
}

/// Both files exist and the first was modified before the second.
pub fn file_older_than(first: &FileStatus, second: &FileStatus) -> (r: bool)
    ensures
        r == (first.exists && second.exists && first.modified < second.modified),
{
    first.exists && second.exists && first.modified < second.modified
}


/// How an invocation of `test` ends.
#[derive(Clone, Copy, Debug, PartialEq, Eq)]
pub enum Verdict {
    /// The condition holds.
    Holds,
    /// The condition does not hold.
    Fails,
    /// The arguments are no condition that `test` knows.
    Malformed,
    /// An operand of an integer comparison denotes no integer.
    NotANumber,
    /// The status of a file that the condition asks for could not be had.
    Unreadable,
}

/// The verdict on a condition that is known to hold or not.
pub open spec fn decided(holds: bool) -> Verdict {
    if holds {
        Verdict::Holds
    } else {
        Verdict::Fails
    }
}

/// The verdict on an integer comparison.
pub open spec fn compared(outcome: Option<bool>) -> Verdict {
    match outcome {
        Some(holds) => decided(holds),
        None => Verdict::NotANumber,
    }
}

/// The status of the file operand at an index, if it was handed over and
/// could be read.
pub open spec fn status_at(files: Seq<Result<FileStatus, String>>, i: int) -> Option<FileStatus> {
    if 0 <= i < files.len() {
        match files[i] {
            Ok(status) => Some(status),
            Err(_) => None,
        }
    } else {
        None
    }
}

/// The verdict on a condition with a flag and one operand.
pub open spec fn flag_verdict(
    flag: Seq<char>,
    operand: Seq<char>,
    files: Seq<Result<FileStatus, String>>,
) -> Verdict {
    let file = status_at(files, 0);
    if flag == "-d"@ {
        match file {
            Some(f) => decided(f.exists && f.directory),
            None => Verdict::Unreadable,
        }
    } else if flag == "-e"@ {
        match file {
            Some(f) => decided(f.exists),
            None => Verdict::Unreadable,
        }
    } else if flag == "-f"@ {
        match file {
            Some(f) => decided(f.exists && !f.directory),
            None => Verdict::Unreadable,
        }
    } else if flag == "-s"@ {
        match file {
            Some(f) => decided(f.exists && f.size > 0),
            None => Verdict::Unreadable,
        }
    } else if flag == "-n"@ {
        decided(operand.len() > 0)
    } else if flag == "-z"@ {
        decided(operand.len() == 0)
    } else {
        Verdict::Malformed
    }
}

/// The verdict on a condition with an operator between two operands.
pub open spec fn infix_verdict(
    left: Seq<char>,
    operator: Seq<char>,
    right: Seq<char>,
    files: Seq<Result<FileStatus, String>>,
) -> Verdict {
    if operator == "="@ || operator == "=="@ {
        decided(left == right)
    } else if operator == "!="@ {
        decided(left != right)
    } else if operator == "<"@ {
        decided(text_less(left, right))
    } else if operator == "<="@ {
        decided(!text_less(right, left))
    } else if operator == ">"@ {
        decided(text_less(right, left))
    } else if operator == ">="@ {
        decided(!text_less(left, right))
    } else if operator == "-eq"@ {
        compared(integers_related(Relation::Equal, left, right))
    } else if operator == "-ge"@ {
        compared(integers_related(Relation::GreaterOrEqual, left, right))
    } else if operator == "-gt"@ {
        compared(integers_related(Relation::Greater, left, right))
    } else if operator == "-le"@ {
        compared(integers_related(Relation::LessOrEqual, left, right))
    } else if operator == "-lt"@ {
        compared(integers_related(Relation::Less, left, right))
    } else if operator == "-ne"@ {
        compared(integers_related(Relation::NotEqual, left, right))
    } else if operator == "-pgt"@ {
        compared(prefixed_related(Relation::Greater, left, right))
    } else if operator == "-plt"@ {
        compared(prefixed_related(Relation::Less, left, right))
    } else if operator == "-nt"@ {
        match (status_at(files, 0), status_at(files, 1)) {
            (Some(a), Some(b)) => decided(a.exists && b.exists && a.modified > b.modified),
            _ => Verdict::Unreadable,
        }
    } else if operator == "-ot"@ {
        match (status_at(files, 0), status_at(files, 1)) {
            (Some(a), Some(b)) => decided(a.exists && b.exists && a.modified < b.modified),
            _ => Verdict::Unreadable,
        }
    } else {
        Verdict::Malformed
    }
}

/// The verdict of `test` on its arguments, the first of which is the name
/// of the command, given the status of the files that it asks for.
///
/// One operand is tested for being non-empty. A flag with an operand tests
/// a file (`-d`, `-e`, `-f`, `-s`) or a string (`-n`, `-z`). An operator
/// between two operands compares strings, integers or files. Anything else
/// is malformed.
pub open spec fn test_verdict(
    args: Seq<Seq<char>>,
    files: Seq<Result<FileStatus, String>>,
) -> Verdict {
    if args.len() == 2 {
        decided(args[1].len() > 0)
    } else if args.len() == 3 {
        flag_verdict(args[1], args[2], files)
    } else if args.len() == 4 {
        infix_verdict(args[1], args[2], args[3], files)
    } else {
        Verdict::Malformed
    }
}

/// The paths whose status `test` asks for, in the order in which their
/// status is to be handed over.
pub open spec fn test_files(args: Seq<Seq<char>>) -> Seq<Seq<char>> {
    if args.len() == 3 && (args[1] == "-d"@ || args[1] == "-e"@ || args[1] == "-f"@ || args[1]
        == "-s"@) {
        seq![args[2]]
    } else if args.len() == 4 && (args[2] == "-nt"@ || args[2] == "-ot"@) {
        seq![args[1], args[3]]
    } else {
        Seq::empty()
    }
}

/// Executable form of [`test_files`].
pub fn test_operands(args: &Vec<String>) -> (paths: Vec<String>)
    ensures
        paths.deep_view() == test_files(args.deep_view()),
{
    let mut paths: Vec<String> = Vec::new();
    if args.len() == 3 {
        let flag = args[1].as_str();
        if strings_equal(flag, "-d") || strings_equal(flag, "-e") || strings_equal(flag, "-f")
            || strings_equal(flag, "-s") {
            paths.push(args[2].clone());
        }
    } else if args.len() == 4 {
        let operator = args[2].as_str();
        if strings_equal(operator, "-nt") || strings_equal(operator, "-ot") {
            paths.push(args[1].clone());
            paths.push(args[3].clone());
        }
    }
    assert(paths.deep_view() =~= test_files(args.deep_view()));
    paths
}

/// The message that tells why the status of the file operand at an index
/// could not be had: the one that was handed over in its place, or a fixed
/// one where nothing was handed over.
pub open spec fn message_at(files: Seq<Result<FileStatus, String>>, i: int) -> Seq<char> {
    if 0 <= i < files.len() && files[i] is Err {
        files[i]->Err_0@
    } else {
        "no file status"@
    }
}

/// The message of an invocation that ends as unreadable: that of the first
/// file operand whose status could not be had.
pub open spec fn unreadable_text(files: Seq<Result<FileStatus, String>>) -> Seq<char> {
    if status_at(files, 0) is None {
        message_at(files, 0)
    } else {
        message_at(files, 1)
    }
}

/// The status of the file operand at an index, or the message of the
/// failure to read it.
fn operand_status(files: &Vec<Result<FileStatus, String>>, i: usize) -> (r: Result<
    FileStatus,
    String,
>)
    ensures
        match status_at(files@, i as int) {
            Some(status) => r == Ok::<FileStatus, String>(status),
            None => r matches Err(message) && message@ == message_at(files@, i as int),
        },
{
    if i < files.len() {
        match &files[i] {
            Ok(status) => Ok(*status),
            Err(message) => Err(message.clone()),
        }
    } else {
        Err("no file status".to_string())
    }
}

/// The outcome of an invocation of `test`: the verdict, and the message of
/// the failure where a status could not be had.
pub struct Outcome {
    pub verdict: Verdict,
    pub message: String,
}

/// An outcome without a message.
fn outcome(verdict: Verdict) -> (r: Outcome)
    ensures
        r.verdict == verdict,
{
    Outcome { verdict, message: String::new() }
}

/// The outcome of a condition that is known to hold or not.
fn outcome_of(holds: bool) -> (r: Outcome)
    ensures
        r.verdict == decided(holds),
{
    outcome(if holds {
        Verdict::Holds
    } else {
        Verdict::Fails
    })
}

/// The outcome of an integer comparison.
fn outcome_compared(result: Option<bool>) -> (r: Outcome)
    ensures
        r.verdict == compared(result),
{
    match result {
        Some(holds) => outcome_of(holds),
        None => outcome(Verdict::NotANumber),
    }
}

/// Evaluates a condition with a flag and one operand.
fn evaluate_flag(flag: &str, operand: &str, files: &Vec<Result<FileStatus, String>>) -> (r:
    Outcome)
    ensures
        r.verdict == flag_verdict(flag@, operand@, files@),
        r.verdict is Unreadable ==> r.message@ == unreadable_text(files@),
{
    let file_test = strings_equal(flag, "-d") || strings_equal(flag, "-e") || strings_equal(
        flag,
        "-f",
    ) || strings_equal(flag, "-s");
    if file_test {
        match operand_status(files, 0) {
            Err(message) => Outcome { verdict: Verdict::Unreadable, message },
            Ok(file) => {
                if strings_equal(flag, "-d") {
                    outcome_of(file_exists_and_is_directory(&file))
                } else if strings_equal(flag, "-e") {
                    outcome_of(file_exists(&file))
                } else if strings_equal(flag, "-f") {
                    outcome_of(file_exists_and_is_not_directory(&file))
                } else {
                    outcome_of(file_exists_and_size_greater_than_zero(&file))
                }
            },
        }
    } else if strings_equal(flag, "-n") {
        outcome_of(string_nonzero_length(operand))
    } else if strings_equal(flag, "-z") {
        outcome_of(string_zero_length(operand))
    } else {
        outcome(Verdict::Malformed)
    }
}

/// Evaluates a comparison of the status of two files.
fn evaluate_files(newer: bool, files: &Vec<Result<FileStatus, String>>) -> (r: Outcome)
    ensures
        r.verdict == match (status_at(files@, 0), status_at(files@, 1)) {
            (Some(a), Some(b)) => decided(
                a.exists && b.exists && if newer {
                    a.modified > b.modified
                } else {
                    a.modified < b.modified
                },
            ),
            _ => Verdict::Unreadable,
        },
        r.verdict is Unreadable ==> r.message@ == unreadable_text(files@),
{
    match operand_status(files, 0) {
        Err(message) => Outcome { verdict: Verdict::Unreadable, message },
        Ok(first) => match operand_status(files, 1) {
            Err(message) => Outcome { verdict: Verdict::Unreadable, message },
            Ok(second) => {
                if newer {
                    outcome_of(file_newer_than(&first, &second))
                } else {
                    outcome_of(file_older_than(&first, &second))
                }
            },
        },
    }
}

/// Evaluates a condition with an operator between two operands.
fn evaluate_infix(
    left: &str,
    operator: &str,
    right: &str,
    files: &Vec<Result<FileStatus, String>>,
) -> (r: Outcome)
    ensures
        r.verdict == infix_verdict(left@, operator@, right@, files@),
        r.verdict is Unreadable ==> r.message@ == unreadable_text(files@),
{
    if strings_equal(operator, "=") || strings_equal(operator, "==") {
        outcome_of(strings_equal(left, right))
    } else if strings_equal(operator, "!=") {
        outcome_of(strings_not_equal(left, right))
    } else if strings_equal(operator, "<") {
        outcome_of(strings_lexographically_less_than(left, right))
    } else if strings_equal(operator, "<=") {
        outcome_of(strings_lexographically_less_than_or_equal_to(left, right))
    } else if strings_equal(operator, ">") {
        outcome_of(strings_lexographically_greater_than(left, right))
    } else if strings_equal(operator, ">=") {
        outcome_of(strings_lexographically_greater_than_or_equal_to(left, right))
    } else if strings_equal(operator, "-eq") {
        outcome_compared(integers_equal(left, right))
    } else if strings_equal(operator, "-ge") {
        outcome_compared(integers_greater_than_or_equal_to(left, right))
    } else if strings_equal(operator, "-gt") {
        outcome_compared(integers_greater_than(left, right))
    } else if strings_equal(operator, "-le") {
        outcome_compared(integers_less_than_or_equal_to(left, right))
    } else if strings_equal(operator, "-lt") {
        outcome_compared(integers_less_than(left, right))
    } else if strings_equal(operator, "-ne") {
        outcome_compared(integers_not_equal(left, right))
    } else if strings_equal(operator, "-pgt") {
        outcome_compared(integers_prefix_greater_than(left, right))
    } else if strings_equal(operator, "-plt") {
        outcome_compared(integers_prefix_less_than(left, right))
    } else if strings_equal(operator, "-nt") {
        evaluate_files(true, files)
    } else if strings_equal(operator, "-ot") {
        evaluate_files(false, files)
    } else {
        outcome(Verdict::Malformed)
    }
}

/// Evaluates `test` on its arguments, the first of which is the name of the
/// command. `files` holds, for each path of [`test_files`] in order, its
/// status or the message of the failure to read it.
pub fn evaluate_test(args: &Vec<String>, files: &Vec<Result<FileStatus, String>>) -> (r: Outcome)
    ensures
        r.verdict == test_verdict(args.deep_view(), files@),
        r.verdict is Unreadable ==> r.message@ == unreadable_text(files@),
{
    if args.len() == 2 {
        outcome_of(string_nonzero_length(args[1].as_str()))
    } else if args.len() == 3 {
        evaluate_flag(args[1].as_str(), args[2].as_str(), files)
    } else if args.len() == 4 {
        evaluate_infix(args[1].as_str(), args[2].as_str(), args[3].as_str(), files)
    } else {
        outcome(Verdict::Malformed)
    }
}

} // verus!
