//! Text: the sequences of characters that names, messages and SQL are made
//! of, and the small operations the engine performs on them.
//!
//! A `String` or `&str` is modelled by its view, a `Seq<char>`. Everything
//! that renders, joins, compares or parses text states its result as a
//! sequence.

use vstd::prelude::*;
use vstd::string::*;

verus! {

/// `String::push`: appends one character to the end of the text.
pub assume_specification[ String::push ](s: &mut String, c: char)
    ensures
        final(s)@ == old(s)@.push(c),
;

/// A copy whose contents equal the original's, all the way down.
pub trait DeepClone: DeepView + Sized {
    fn deep_clone(&self) -> (copy: Self)
        ensures
            copy.deep_view() == self.deep_view(),
    ;
}

impl DeepClone for String {
    fn deep_clone(&self) -> (copy: Self) {
        self.clone()
    }
}

impl DeepClone for bool {
    fn deep_clone(&self) -> (copy: Self) {
        *self
    }
}

impl DeepClone for i64 {
    fn deep_clone(&self) -> (copy: Self) {
        *self
    }
}

impl DeepClone for u64 {
    fn deep_clone(&self) -> (copy: Self) {
        *self
    }
}

impl DeepClone for u32 {
    fn deep_clone(&self) -> (copy: Self) {
        *self
    }
}

impl DeepClone for usize {
    fn deep_clone(&self) -> (copy: Self) {
        *self
    }
}

impl<T: DeepClone> DeepClone for Option<T> {
    fn deep_clone(&self) -> (copy: Self) {
        match self {
            Some(value) => Some(value.deep_clone()),
            None => None,
        }
    }
}

impl<T: DeepClone, U: DeepClone> DeepClone for (T, U) {
    fn deep_clone(&self) -> (copy: Self) {
        (self.0.deep_clone(), self.1.deep_clone())
    }
}

impl<T: DeepClone> DeepClone for Vec<T> {
    fn deep_clone(&self) -> (copy: Self) {
        let mut copy: Vec<T> = Vec::new();
        for i in 0..self.len()
            invariant
                copy@.len() == i,
                forall|j: int| 0 <= j < i ==> copy@[j].deep_view() == self@[j].deep_view(),
        {
            copy.push(self[i].deep_clone());
        }
        assert(copy.deep_view() =~= self.deep_view());
        copy
    }
}

/// Pushing an element pushes its deep view.
pub proof fn lemma_push_deep_view<T: DeepView>(before: Seq<T>, item: T)
    ensures
        Seq::new(before.push(item).len(), |i: int| before.push(item)[i].deep_view()) =~= Seq::new(
            before.len(),
            |i: int| before[i].deep_view(),
        ).push(item.deep_view()),
{
}

/// Appends `item` to `items`, in the deep view as well.
pub fn put<T: DeepView>(items: &mut Vec<T>, item: T)
    ensures
        final(items).deep_view() == old(items).deep_view().push(item.deep_view()),
        final(items)@ == old(items)@.push(item),
{
    proof {
        lemma_push_deep_view(items@, item);
    }
    items.push(item);
}

/// An empty vector, whose deep view is empty too.
pub fn none_of<T: DeepView>() -> (r: Vec<T>)
    ensures
        r@.len() == 0,
        r.deep_view() == Seq::<T::V>::empty(),
{
    let r: Vec<T> = Vec::new();
    assert(r.deep_view() =~= Seq::<T::V>::empty());
    r
}

/// A vector of one element.
pub fn one_of<T: DeepView>(item: T) -> (r: Vec<T>)
    ensures
        r@.len() == 1,
        r.deep_view() == seq![item.deep_view()],
{
    let mut r: Vec<T> = none_of();
    put(&mut r, item);
    assert(r.deep_view() =~= seq![item.deep_view()]);
    r
}

/// Moves every element of `more` to the end of `items`.
pub fn put_all<T: DeepView>(items: &mut Vec<T>, more: Vec<T>)
    ensures
        final(items).deep_view() == old(items).deep_view() + more.deep_view(),
        final(items)@ == old(items)@ + more@,
{
    let mut more = more;
    let ghost before = items@;
    let ghost tail = more@;
    items.append(&mut more);
    assert(items.deep_view() =~= Seq::new(before.len(), |i: int| before[i].deep_view()) + Seq::new(
        tail.len(),
        |i: int| tail[i].deep_view(),
    ));
}

/// Whether two texts are the same.
pub fn same(a: &str, b: &str) -> (r: bool)
    ensures
        r == (a@ == b@),
{
    let left: String = a.to_owned();
    let right: String = b.to_owned();
    left == right
}

/// Whether two optional texts are the same.
pub fn same_option(a: &Option<String>, b: &Option<String>) -> (r: bool)
    ensures
        r == (a.deep_view() == b.deep_view()),
{
    match (a, b) {
        (Some(left), Some(right)) => same(left.as_str(), right.as_str()),
        (None, None) => true,
        _ => false,
    }
}

/// Whether two lists of texts are the same.
pub fn same_list(a: &[String], b: &[String]) -> (r: bool)
    ensures
        r == (a.deep_view() == b.deep_view()),
{
    if a.len() != b.len() {
        assert(a.deep_view().len() != b.deep_view().len());
        return false;
    }
    for i in 0..a.len()
        invariant
            a@.len() == b@.len(),
            forall|j: int| 0 <= j < i ==> a@[j]@ == b@[j]@,
    {
        if !same(a[i].as_str(), b[i].as_str()) {
            assert(a.deep_view()[i as int] != b.deep_view()[i as int]);
            return false;
        }
    }
    assert(a.deep_view() =~= b.deep_view());
    true
}

/// Whether two lists of lists of texts are the same.
pub fn same_lists(a: &[Vec<String>], b: &[Vec<String>]) -> (r: bool)
    ensures
        r == (a.deep_view() == b.deep_view()),
{
    if a.len() != b.len() {
        assert(a.deep_view().len() != b.deep_view().len());
        return false;
    }
    for i in 0..a.len()
        invariant
            a@.len() == b@.len(),
            forall|j: int| 0 <= j < i ==> a@[j].deep_view() == b@[j].deep_view(),
    {
        let left: &[String] = a[i].as_slice();
        let right: &[String] = b[i].as_slice();
        assert(left.deep_view() =~= a@[i as int].deep_view());
        assert(right.deep_view() =~= b@[i as int].deep_view());
        if !same_list(left, right) {
            assert(a.deep_view()[i as int] != b.deep_view()[i as int]);
            return false;
        }
    }
    assert(a.deep_view() =~= b.deep_view());
    true
}

/// Whether `list` holds `name`.
pub fn holds(list: &[String], name: &str) -> (r: bool)
    ensures
        r == list.deep_view().contains(name@),
{
    for i in 0..list.len()
        invariant
            forall|j: int| 0 <= j < i ==> list@[j]@ != name@,
    {
        if same(list[i].as_str(), name) {
            assert(list.deep_view()[i as int] == name@);
            return true;
        }
    }
    assert(!list.deep_view().contains(name@)) by {
        if list.deep_view().contains(name@) {
            let k = choose|k: int| 0 <= k < list.deep_view().len() && list.deep_view()[k] == name@;
            assert(list@[k]@ == name@);
        }
    }
    false
}

pub fn cat2(a: &str, b: &str) -> (r: String)
    ensures
        r@ == a@ + b@,
{
    let mut r: String = a.to_owned();
    r.append(b);
    r
}

pub fn cat3(a: &str, b: &str, c: &str) -> (r: String)
    ensures
        r@ == a@ + b@ + c@,
{
    let mut r: String = cat2(a, b);
    r.append(c);
    r
}

pub fn cat4(a: &str, b: &str, c: &str, d: &str) -> (r: String)
    ensures
        r@ == a@ + b@ + c@ + d@,
{
    let mut r: String = cat3(a, b, c);
    r.append(d);
    r
}

pub fn cat5(a: &str, b: &str, c: &str, d: &str, e: &str) -> (r: String)
    ensures
        r@ == a@ + b@ + c@ + d@ + e@,
{
    let mut r: String = cat4(a, b, c, d);
    r.append(e);
    r
}

pub fn cat6(a: &str, b: &str, c: &str, d: &str, e: &str, f: &str) -> (r: String)
    ensures
        r@ == a@ + b@ + c@ + d@ + e@ + f@,
{
    let mut r: String = cat5(a, b, c, d, e);
    r.append(f);
    r
}

pub fn cat7(a: &str, b: &str, c: &str, d: &str, e: &str, f: &str, g: &str) -> (r: String)
    ensures
        r@ == a@ + b@ + c@ + d@ + e@ + f@ + g@,
{
    let mut r: String = cat6(a, b, c, d, e, f);
    r.append(g);
    r
}

/// The texts of `parts` with `separator` between neighbours.
pub open spec fn join_text(parts: Seq<Seq<char>>, separator: Seq<char>) -> Seq<char>
    decreases parts.len(),
{
    if parts.len() == 0 {
        Seq::empty()
    } else if parts.len() == 1 {
        parts[0]
    } else {
        join_text(parts.drop_last(), separator) + separator + parts.last()
    }
}

pub fn join(parts: &[String], separator: &str) -> (r: String)
    ensures
        r@ == join_text(parts.deep_view(), separator@),
{
    let mut r: String = String::new();
    let ghost views = parts.deep_view();
    assert(views.take(0) =~= Seq::<Seq<char>>::empty());
    for i in 0..parts.len()
        invariant
            views == parts.deep_view(),
            r@ == join_text(views.take(i as int), separator@),
    {
        proof {
            let taken = views.take(i as int + 1);
            assert(taken.drop_last() =~= views.take(i as int));
            assert(taken.last() == parts@[i as int]@);
            if i == 0 {
                assert(taken.len() == 1);
            }
        }
        if i > 0 {
            r.append(separator);
            r.append(parts[i].as_str());
        } else {
            r = parts[i].clone();
        }
    }
    assert(views.take(views.len() as int) =~= views);
    r
}

/// The decimal digit `n`, for `n` below ten.
pub open spec fn digit(n: int) -> char {
    if n == 0 {
        '0'
    } else if n == 1 {
        '1'
    } else if n == 2 {
        '2'
    } else if n == 3 {
        '3'
    } else if n == 4 {
        '4'
    } else if n == 5 {
        '5'
    } else if n == 6 {
        '6'
    } else if n == 7 {
        '7'
    } else if n == 8 {
        '8'
    } else if n == 9 {
        '9'
    } else if n == 10 {
        'a'
    } else if n == 11 {
        'b'
    } else if n == 12 {
        'c'
    } else if n == 13 {
        'd'
    } else if n == 14 {
        'e'
    } else {
        'f'
    }
}

fn digit_char(n: u64) -> (c: char)
    ensures
        c == digit(n as int),
{
    match n {
        0 => '0',
        1 => '1',
        2 => '2',
        3 => '3',
        4 => '4',
        5 => '5',
        6 => '6',
        7 => '7',
        8 => '8',
        9 => '9',
        10 => 'a',
        11 => 'b',
        12 => 'c',
        13 => 'd',
        14 => 'e',
        _ => 'f',
    }
}

/// `n` written in base ten without leading zeros.
pub open spec fn decimal_text(n: nat) -> Seq<char>
    decreases n,
{
    if n < 10 {
        seq![digit(n as int)]
    } else {
        decimal_text(n / 10).push(digit((n % 10) as int))
    }
}

pub fn decimal(n: u64) -> (r: String)
    ensures
        r@ == decimal_text(n as nat),
    decreases n,
{
    if n < 10 {
        let mut r: String = String::new();
        r.push(digit_char(n));
        assert(r@ =~= decimal_text(n as nat));
        r
    } else {
        let mut r: String = decimal(n / 10);
        r.push(digit_char(n % 10));
        r
    }
}

pub fn decimal_usize(n: usize) -> (r: String)
    ensures
        r@ == decimal_text(n as nat),
{
    decimal(n as u64)
}

/// `n` in base ten, a minus sign in front where it is negative.
pub open spec fn signed_text(n: int) -> Seq<char> {
    if n < 0 {
        seq!['-'] + decimal_text((-n) as nat)
    } else {
        decimal_text(n as nat)
    }
}

pub fn signed_decimal(n: i64) -> (r: String)
    ensures
        r@ == signed_text(n as int),
{
    if n < 0 {
        let magnitude: u64 = (0 - (n as i128)) as u64;
        let mut r: String = String::new();
        r.push('-');
        r.append(decimal(magnitude).as_str());
        assert(r@ =~= seq!['-'] + decimal_text((-n) as nat));
        r
    } else {
        decimal(n as u64)
    }
}

/// The last `width` base-ten digits of `n`, zeros in front where it has fewer.
pub open spec fn fixed_digits(n: nat, width: nat) -> Seq<char>
    decreases width,
{
    if width == 0 {
        Seq::empty()
    } else {
        fixed_digits(n / 10, (width - 1) as nat).push(digit((n % 10) as int))
    }
}

pub fn fixed_decimal(n: u64, width: usize) -> (r: String)
    ensures
        r@ == fixed_digits(n as nat, width as nat),
    decreases width,
{
    if width == 0 {
        let r: String = String::new();
        assert(r@ =~= fixed_digits(n as nat, 0));
        r
    } else {
        let mut r: String = fixed_decimal(n / 10, width - 1);
        r.push(digit_char(n % 10));
        r
    }
}

/// The last `width` base-sixteen digits of `n` in lower case.
pub open spec fn fixed_hex(n: nat, width: nat) -> Seq<char>
    decreases width,
{
    if width == 0 {
        Seq::empty()
    } else {
        fixed_hex(n / 16, (width - 1) as nat).push(digit((n % 16) as int))
    }
}

pub fn hex(n: u64, width: usize) -> (r: String)
    ensures
        r@ == fixed_hex(n as nat, width as nat),
    decreases width,
{
    if width == 0 {
        let r: String = String::new();
        assert(r@ =~= fixed_hex(n as nat, 0));
        r
    } else {
        let mut r: String = hex(n / 16, width - 1);
        r.push(digit_char(n % 16));
        r
    }
}

/// The characters of `s`.
pub fn chars_of(s: &str) -> (r: Vec<char>)
    ensures
        r@ == s@,
{
    let mut out: Vec<char> = Vec::new();
    for c in it: s.chars()
        invariant
            it.seq() == s@,
            out@ == s@.take(it.index() as int),
    {
        out.push(c);
        assert(s@.take(it.index() as int + 1) =~= s@.take(it.index() as int).push(c));
    }
    assert(s@.take(s@.len() as int) =~= s@);
    out
}

/// The text made of the characters `chars[from..to]`.
pub fn text_of(chars: &[char], from: usize, to: usize) -> (r: String)
    requires
        from <= to <= chars@.len(),
    ensures
        r@ == chars@.subrange(from as int, to as int),
{
    let mut r: String = String::new();
    for i in from..to
        invariant
            from <= i <= to <= chars@.len(),
            r@ == chars@.subrange(from as int, i as int),
    {
        r.push(chars[i]);
        assert(chars@.subrange(from as int, i as int + 1) =~= chars@.subrange(
            from as int,
            i as int,
        ).push(chars@[i as int]));
    }
    r
}

/// Strict lexicographic order by code point, which is also the byte order of
/// the UTF-8 encodings.
pub open spec fn lex_lt(a: Seq<char>, b: Seq<char>) -> bool
    decreases a.len(),
{
    if b.len() == 0 {
        false
    } else if a.len() == 0 {
        true
    } else if a[0] == b[0] {
        lex_lt(a.drop_first(), b.drop_first())
    } else {
        (a[0] as int) < (b[0] as int)
    }
}

pub proof fn lemma_lex_irreflexive(a: Seq<char>)
    ensures
        !lex_lt(a, a),
    decreases a.len(),
{
    if a.len() > 0 {
        lemma_lex_irreflexive(a.drop_first());
    }
}

pub proof fn lemma_lex_transitive(a: Seq<char>, b: Seq<char>, c: Seq<char>)
    requires
        lex_lt(a, b),
        lex_lt(b, c),
    ensures
        lex_lt(a, c),
    decreases a.len(),
{
    if a.len() > 0 && b.len() > 0 && c.len() > 0 {
        if a[0] == b[0] && b[0] == c[0] {
            lemma_lex_transitive(a.drop_first(), b.drop_first(), c.drop_first());
        }
    }
}

pub proof fn lemma_lex_total(a: Seq<char>, b: Seq<char>)
    ensures
        a == b || lex_lt(a, b) || lex_lt(b, a),
    decreases a.len(),
{
    if a.len() == 0 {
        if b.len() == 0 {
            assert(a =~= b);
        }
    } else if b.len() > 0 {
        if a[0] == b[0] {
            lemma_lex_total(a.drop_first(), b.drop_first());
            if a.drop_first() == b.drop_first() {
                assert(a =~= seq![a[0]] + a.drop_first());
                assert(b =~= seq![b[0]] + b.drop_first());
            }
        }
    }
}

/// Whether `a` comes before `b` in byte order.
pub fn text_before(a: &str, b: &str) -> (r: bool)
    ensures
        r == lex_lt(a@, b@),
{
    let left: Vec<char> = chars_of(a);
    let right: Vec<char> = chars_of(b);
    let mut i: usize = 0;
    assert(a@.skip(0) =~= a@);
    assert(b@.skip(0) =~= b@);
    while i < left.len() && i < right.len() && left[i] == right[i]
        invariant
            left@ == a@,
            right@ == b@,
            i <= left@.len(),
            i <= right@.len(),
            lex_lt(a@, b@) == lex_lt(a@.skip(i as int), b@.skip(i as int)),
        decreases left@.len() - i,
    {
        assert(a@.skip(i as int).drop_first() =~= a@.skip(i as int + 1));
        assert(b@.skip(i as int).drop_first() =~= b@.skip(i as int + 1));
        i = i + 1;
    }
    if i >= right.len() {
        false
    } else if i >= left.len() {
        true
    } else {
        let l: char = left[i];
        let r: char = right[i];
        l < r
    }
}

/// The pieces of `s` between occurrences of `separator`.
pub open spec fn split_text(s: Seq<char>, separator: char) -> Seq<Seq<char>>
    decreases s.len(),
{
    if s.len() == 0 {
        seq![Seq::empty()]
    } else {
        let pieces = split_text(s.drop_last(), separator);
        if s.last() == separator {
            pieces.push(Seq::empty())
        } else {
            pieces.drop_last().push(pieces.last().push(s.last()))
        }
    }
}

pub fn split_on(s: &str, separator: char) -> (r: Vec<String>)
    ensures
        r.deep_view() == split_text(s@, separator),
        r@.len() >= 1,
{
    let chars: Vec<char> = chars_of(s);
    let mut done: Vec<String> = none_of();
    let mut piece: String = String::new();
    assert(s@.take(0) =~= Seq::<char>::empty());
    assert(done.deep_view().push(piece@) =~= split_text(s@.take(0), separator));
    for i in 0..chars.len()
        invariant
            chars@ == s@,
            done.deep_view().push(piece@) == split_text(s@.take(i as int), separator),
    {
        let ghost before = done.deep_view().push(piece@);
        assert(s@.take(i as int + 1).drop_last() =~= s@.take(i as int));
        assert(before.drop_last() =~= done.deep_view());
        if chars[i] == separator {
            put(&mut done, piece);
            piece = String::new();
            assert(done.deep_view().push(piece@) =~= before.push(Seq::empty()));
        } else {
            piece.push(chars[i]);
            assert(done.deep_view().push(piece@) =~= before.drop_last().push(
                before.last().push(s@[i as int]),
            ));
        }
    }
    assert(s@.take(s@.len() as int) =~= s@);
    put(&mut done, piece);
    assert(done@.len() == done.deep_view().len());
    done
}

/// The characters with Unicode's `White_Space` property.
pub open spec fn is_space(c: char) -> bool {
    let n = c as int;
    (0x9 <= n <= 0xd) || n == 0x20 || n == 0x85 || n == 0xa0 || n == 0x1680 || (0x2000 <= n
        <= 0x200a) || n == 0x2028 || n == 0x2029 || n == 0x202f || n == 0x205f || n == 0x3000
}

fn space(c: char) -> (r: bool)
    ensures
        r == is_space(c),
{
    let n: u32 = c as u32;
    (0x9 <= n && n <= 0xd) || n == 0x20 || n == 0x85 || n == 0xa0 || n == 0x1680 || (0x2000 <= n
        && n <= 0x200a) || n == 0x2028 || n == 0x2029 || n == 0x202f || n == 0x205f || n == 0x3000
}

/// `s` without the white space at its end.
pub open spec fn trim_end_text(s: Seq<char>) -> Seq<char>
    decreases s.len(),
{
    if s.len() > 0 && is_space(s.last()) {
        trim_end_text(s.drop_last())
    } else {
        s
    }
}

/// `s` without the white space at its start.
pub open spec fn trim_start_text(s: Seq<char>) -> Seq<char>
    decreases s.len(),
{
    if s.len() > 0 && is_space(s[0]) {
        trim_start_text(s.drop_first())
    } else {
        s
    }
}

/// `s` without the white space around it.
pub open spec fn trim_text(s: Seq<char>) -> Seq<char> {
    trim_start_text(trim_end_text(s))
}

pub fn trim(s: &str) -> (r: String)
    ensures
        r@ == trim_text(s@),
{
    let chars: Vec<char> = chars_of(s);
    let mut to: usize = chars.len();
    assert(s@.take(s@.len() as int) =~= s@);
    while to > 0 && space(chars[to - 1])
        invariant
            chars@ == s@,
            to <= chars@.len(),
            trim_end_text(s@.take(to as int)) == trim_end_text(s@),
        decreases to,
    {
        assert(s@.take(to as int).drop_last() =~= s@.take(to as int - 1));
        to = to - 1;
    }
    let ghost kept = s@.take(to as int);
    assert(trim_end_text(s@) == kept) by {
        if to > 0 {
            assert(kept.last() == s@[to as int - 1]);
        }
    }
    let mut from: usize = 0;
    assert(kept.skip(0) =~= kept);
    while from < to && space(chars[from])
        invariant
            chars@ == s@,
            from <= to <= chars@.len(),
            kept == s@.take(to as int),
            trim_start_text(kept.skip(from as int)) == trim_start_text(kept),
        decreases to - from,
    {
        assert(kept.skip(from as int).drop_first() =~= kept.skip(from as int + 1));
        from = from + 1;
    }
    let ghost rest = kept.skip(from as int);
    assert(trim_start_text(kept) == rest) by {
        if from < to {
            assert(rest[0] == s@[from as int]);
        }
    }
    assert(s@.subrange(from as int, to as int) =~= rest);
    text_of(chars.as_slice(), from, to)
}

/// An ASCII letter in lower case; any other character as it is.
pub open spec fn ascii_lower(c: char) -> char {
    if 'A' <= c && c <= 'Z' {
        ((c as int) + 32) as char
    } else {
        c
    }
}

pub fn lower(c: char) -> (r: char)
    ensures
        r == ascii_lower(c),
{
    if 'A' <= c && c <= 'Z' {
        ((c as u8) + 32) as char
    } else {
        c
    }
}

/// The number of bytes a character takes in UTF-8.
pub open spec fn utf8_width(c: char) -> nat {
    let n = c as int;
    if n < 0x80 {
        1
    } else if n < 0x800 {
        2
    } else if n < 0x10000 {
        3
    } else {
        4
    }
}

/// The number of bytes a text takes in UTF-8.
pub open spec fn byte_length(s: Seq<char>) -> nat
    decreases s.len(),
{
    if s.len() == 0 {
        0
    } else {
        byte_length(s.drop_last()) + utf8_width(s.last())
    }
}

/// The longest prefix of `s` of at most `limit` bytes.
pub open spec fn fitting(s: Seq<char>, limit: nat) -> Seq<char>
    decreases s.len(),
{
    if byte_length(s) <= limit || s.len() == 0 {
        s
    } else {
        fitting(s.drop_last(), limit)
    }
}

proof fn lemma_byte_length_take(s: Seq<char>, i: int)
    requires
        0 <= i < s.len(),
    ensures
        byte_length(s.take(i + 1)) == byte_length(s.take(i)) + utf8_width(s[i]),
{
    assert(s.take(i + 1).drop_last() =~= s.take(i));
}

proof fn lemma_byte_length_monotone(s: Seq<char>, i: int, j: int)
    requires
        0 <= i <= j <= s.len(),
    ensures
        byte_length(s.take(i)) <= byte_length(s.take(j)),
    decreases j - i,
{
    if i < j {
        lemma_byte_length_monotone(s, i, j - 1);
        lemma_byte_length_take(s, j - 1);
    }
}

proof fn lemma_fitting(s: Seq<char>, limit: nat, k: int)
    requires
        0 <= k <= s.len(),
        byte_length(s.take(k)) <= limit,
        k < s.len() ==> byte_length(s.take(k + 1)) > limit,
    ensures
        fitting(s, limit) == s.take(k),
    decreases s.len(),
{
    assert(s.take(s.len() as int) =~= s);
    if k < s.len() {
        lemma_byte_length_monotone(s, k + 1, s.len() as int);
        let shorter = s.drop_last();
        assert(shorter.take(k) =~= s.take(k));
        if k < shorter.len() {
            assert(shorter.take(k + 1) =~= s.take(k + 1));
        }
        lemma_fitting(shorter, limit, k);
    }
}

fn width(c: char) -> (r: usize)
    ensures
        r == utf8_width(c),
{
    let n: u32 = c as u32;
    if n < 0x80 {
        1
    } else if n < 0x800 {
        2
    } else if n < 0x10000 {
        3
    } else {
        4
    }
}

/// The longest prefix of `s` of at most `limit` bytes, and how many it takes.
pub fn fit(s: &str, limit: usize) -> (r: (String, usize))
    ensures
        r.0@ == fitting(s@, limit as nat),
        r.1 == byte_length(fitting(s@, limit as nat)),
{
    let chars: Vec<char> = chars_of(s);
    let mut k: usize = 0;
    let mut bytes: usize = 0;
    assert(s@.take(0) =~= Seq::<char>::empty());
    while k < chars.len() && width(chars[k]) <= limit - bytes
        invariant
            chars@ == s@,
            k <= chars@.len(),
            bytes <= limit,
            bytes == byte_length(s@.take(k as int)),
        decreases chars@.len() - k,
    {
        proof {
            lemma_byte_length_take(s@, k as int);
        }
        bytes = bytes + width(chars[k]);
        k = k + 1;
    }
    proof {
        if k < s@.len() {
            lemma_byte_length_take(s@, k as int);
        }
        lemma_fitting(s@, limit as nat, k as int);
        assert(s@.subrange(0, k as int) =~= s@.take(k as int));
    }
    (text_of(chars.as_slice(), 0, k), bytes)
}

/// The first `limit` bytes of `s`, or all of it where it has fewer or a
/// character lies across that boundary.
pub open spec fn head_text(s: Seq<char>, limit: nat) -> Seq<char> {
    if byte_length(fitting(s, limit)) == limit {
        fitting(s, limit)
    } else {
        s
    }
}

pub fn head(s: &str, limit: usize) -> (r: String)
    ensures
        r@ == head_text(s@, limit as nat),
{
    let (prefix, bytes) = fit(s, limit);
    if bytes == limit {
        prefix
    } else {
        s.to_owned()
    }
}

/// `s` where it takes at most `limit` bytes, else its longest prefix that does
/// and an ellipsis.
pub open spec fn short_text(s: Seq<char>, limit: nat) -> Seq<char> {
    if fitting(s, limit) == s {
        s
    } else {
        fitting(s, limit) + "…"@
    }
}

pub fn short(s: &str, limit: usize) -> (r: String)
    ensures
        r@ == short_text(s@, limit as nat),
{
    let (prefix, _) = fit(s, limit);
    if same(prefix.as_str(), s) {
        prefix
    } else {
        cat2(prefix.as_str(), "…")
    }
}

/// Whether `s` begins with `prefix`.
pub open spec fn begins(s: Seq<char>, prefix: Seq<char>) -> bool {
    prefix.len() <= s.len() && s.take(prefix.len() as int) == prefix
}

pub fn begins_with(s: &str, prefix: &str) -> (r: bool)
    ensures
        r == begins(s@, prefix@),
{
    let whole: Vec<char> = chars_of(s);
    let head: Vec<char> = chars_of(prefix);
    if head.len() > whole.len() {
        return false;
    }
    let cut: String = text_of(whole.as_slice(), 0, head.len());
    assert(cut@ =~= s@.take(prefix@.len() as int));
    same(cut.as_str(), prefix)
}

/// Whether `s` ends in `suffix`.
pub open spec fn ends(s: Seq<char>, suffix: Seq<char>) -> bool {
    suffix.len() <= s.len() && s.skip(s.len() - suffix.len()) == suffix
}

pub fn ends_with(s: &str, suffix: &str) -> (r: bool)
    ensures
        r == ends(s@, suffix@),
{
    let a: Vec<char> = chars_of(s);
    let b: Vec<char> = chars_of(suffix);
    if b.len() > a.len() {
        return false;
    }
    let total: usize = a.len();
    let from: usize = total - b.len();
    for i in 0..b.len()
        invariant
            a@ == s@,
            b@ == suffix@,
            total == a@.len(),
            from + b@.len() == total,
            forall|k: int| 0 <= k < i ==> a@[from + k] == #[trigger] b@[k],
    {
        if a[from + i] != b[i] {
            assert(s@.skip(from as int)[i as int] != suffix@[i as int]);
            return false;
        }
    }
    assert(s@.skip(from as int) =~= suffix@);
    true
}

} // verus!
