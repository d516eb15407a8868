//! Letting the operator choose from a list with `fzf`.
//!
//! Every item goes to the picker on a line of its own behind its number, which the
//! picker hides; the numbers of the lines that come back are the choice.

use vstd::prelude::*;
use vstd::utf8::*;
use crate::encoding::{text_lossy, utf8_lossy};
use crate::text::{
    all_digits, decimal, decimal_text, digit_char, digits_value, is_digit, lines, lines_of,
    parse_unsigned, split, split_on, unsigned_of, views, without_cr,
};

verus! {

// ── What goes to the picker ─────────────────────────────────────────────────
/// The line of the item with number `i`.
pub open spec fn picker_line(i: nat, item: Seq<char>) -> Seq<char> {
    decimal(i).push('\t') + item
}

/// The lines, each with a line feed behind it.
pub open spec fn joined_lines(lines: Seq<Seq<char>>) -> Seq<char>
    decreases lines.len(),
{
    if lines.len() == 0 {
        Seq::empty()
    } else {
        (joined_lines(lines.drop_last()) + lines.last()).push('\n')
    }
}

/// The lines of all items.
pub open spec fn picker_lines(items: Seq<Seq<char>>) -> Seq<Seq<char>> {
    Seq::new(items.len(), |i: int| picker_line(i as nat, items[i]))
}

/// The text that is written to the picker.
pub fn picker_input(items: &Vec<String>) -> (out: String)
    ensures
        out@ == joined_lines(picker_lines(views(items@))),
{
    let n: usize = items.len();
    let ghost all = picker_lines(views(items@));
    let mut out = String::new();
    assert(all.take(0) =~= Seq::empty());
    for i in 0..n
        invariant
            n == items@.len(),
            all == picker_lines(views(items@)),
            out@ == joined_lines(all.take(i as int)),
    {
        proof {
            assert(all.take(i + 1).drop_last() =~= all.take(i as int));
        }
        let ghost before = out@;
        out.append(&decimal_text(i as u64));
        out.push('\t');
        out.append(&items[i]);
        proof {
            assert(out@ =~= before + picker_line(i as nat, items@[i as int]@));
        }
        out.push('\n');
    }
    assert(all.take(n as int) =~= all);
    out
}

/// The arguments of the picker.
pub open spec fn picker_args_of(multi: bool, prompt: Seq<char>) -> Seq<Seq<char>> {
    let rest = seq!["--prompt"@, prompt, "--with-nth"@, "2.."@, "--delimiter"@, "\t"@];
    if multi {
        seq!["--multi"@] + rest
    } else {
        rest
    }
}

/// The arguments of the picker: the number of a line is not shown, and with `multi`
/// more than one line can be chosen.
pub fn picker_args(multi: bool, prompt: &str) -> (out: Vec<String>)
    ensures
        views(out@) == picker_args_of(multi, prompt@),
{
    let mut out: Vec<String> = Vec::new();
    if multi {
        out.push("--multi".to_owned());
    }
    out.push("--prompt".to_owned());
    out.push(prompt.to_owned());
    out.push("--with-nth".to_owned());
    out.push("2..".to_owned());
    out.push("--delimiter".to_owned());
    out.push("\t".to_owned());
    assert(views(out@) =~= picker_args_of(multi, prompt@));
    out
}

// ── What comes back ─────────────────────────────────────────────────────────
/// Why there is no choice.
#[derive(Debug, Clone, Copy, PartialEq, Eq, Structural)]
pub enum SelectError {
    /// Nothing was chosen.
    Nothing,
    /// This number belongs to no item.
    OutOfRange(usize),
}

/// The number at the start of a line, up to its first tab.
pub open spec fn line_number(line: Seq<char>) -> Option<usize> {
    match unsigned_of(split_on(line, '\t')[0], usize::MAX as nat) {
        Some(n) => Some(n as usize),
        None => None,
    }
}

/// The numbers of the lines, without those that have none.
pub open spec fn line_numbers(lines: Seq<Seq<char>>) -> Seq<usize>
    decreases lines.len(),
{
    if lines.len() == 0 {
        Seq::empty()
    } else {
        let before = line_numbers(lines.drop_last());
        match line_number(lines.last()) {
            Some(n) => before.push(n),
            None => before,
        }
    }
}

/// Whether `chosen` is the choice among `count` items that the picker's output
/// `text` makes, or the reason why there is none.
pub open spec fn is_selection(
    text: Seq<char>,
    count: nat,
    chosen: Result<Seq<usize>, SelectError>,
) -> bool {
    let numbers = line_numbers(lines_of(text));
    match chosen {
        Ok(s) => {
            &&& s == numbers
            &&& numbers.len() > 0
            &&& forall|k: int| 0 <= k < numbers.len() ==> #[trigger] numbers[k] < count
        },
        Err(SelectError::Nothing) => numbers.len() == 0,
        Err(SelectError::OutOfRange(bad)) => exists|k: int|
            {
                &&& 0 <= k < numbers.len()
                &&& #[trigger] numbers[k] == bad
                &&& bad >= count
                &&& forall|j: int| 0 <= j < k ==> #[trigger] numbers[j] < count
            },
    }
}

/// Reads the picker's output.
pub fn selection(text: &str, count: usize) -> (out: Result<Vec<usize>, SelectError>)
    ensures
        is_selection(
            text@,
            count as nat,
            match out {
                Ok(v) => Ok(v@),
                Err(e) => Err(e),
            },
        ),
{
    let all = lines(text);
    let n: usize = all.len();
    let ghost want = lines_of(text@);
    assert(want.len() == all@.len());
    let mut chosen: Vec<usize> = Vec::new();
    assert(want.take(0) =~= Seq::empty());
    for i in 0..n
        invariant
            n == all@.len(),
            want == views(all@),
            want.len() == all@.len(),
            chosen@ == line_numbers(want.take(i as int)),
    {
        let fields = split(&all[i], '\t');
        proof {
            assert(want.take(i + 1).drop_last() =~= want.take(i as int));
            assert(want[i as int] == all@[i as int]@);
            assert(views(fields@)[0] == fields@[0]@);
        }
        if let Some(v) = parse_unsigned(&fields[0], usize::MAX as u64) {
            chosen.push(v as usize);
        }
    }
    assert(want.take(n as int) =~= want);
    let total: usize = chosen.len();
    if total == 0 {
        return Err(SelectError::Nothing);
    }
    for i in 0..total
        invariant
            total == chosen@.len(),
            chosen@ == line_numbers(lines_of(text@)),
            forall|k: int| 0 <= k < i ==> #[trigger] chosen@[k] < count,
    {
        if chosen[i] >= count {
            return Err(SelectError::OutOfRange(chosen[i]));
        }
    }
    Ok(chosen)
}

/// Reads the bytes that the picker wrote: the numbers of the chosen items, of
/// `count` items in all.
pub fn select(output: &[u8], count: usize) -> (out: Result<Vec<usize>, SelectError>)
    ensures
        if output@.len() == 0 {
            out == Err::<Vec<usize>, SelectError>(SelectError::Nothing)
        } else {
            is_selection(
                utf8_lossy(output@),
                count as nat,
                match out {
                    Ok(v) => Ok(v@),
                    Err(e) => Err(e),
                },
            )
        },
        valid_utf8(output@) ==> is_selection(
            decode_utf8(output@),
            count as nat,
            match out {
                Ok(v) => Ok(v@),
                Err(e) => Err(e),
            },
        ),
        out matches Ok(v) ==> v@.len() > 0 && forall|k: int|
            0 <= k < v@.len() ==> #[trigger] v@[k] < count,
{
    if output.len() == 0 {
        return Err(SelectError::Nothing);
    }
    selection(&text_lossy(output), count)
}

// ── What goes in comes back ─────────────────────────────────────────────────
proof fn lemma_decimal(n: nat)
    ensures
        all_digits(decimal(n)),
        digits_value(decimal(n)) == n,
    decreases n,
{
    reveal_with_fuel(digits_value, 2);
    if n < 10 {
        assert(decimal(n).drop_last() =~= Seq::empty());
        assert(is_digit(digit_char(n)));
    } else {
        lemma_decimal(n / 10);
        assert(decimal(n).drop_last() =~= decimal(n / 10));
        assert(is_digit(digit_char(n % 10)));
        assert(decimal(n).last() == digit_char(n % 10));
    }
}

proof fn lemma_split_len(s: Seq<char>, sep: char)
    ensures
        split_on(s, sep).len() > 0,
    decreases s.len(),
{
    if s.len() > 0 {
        lemma_split_len(s.drop_last(), sep);
    }
}

proof fn lemma_split_append(s: Seq<char>, t: Seq<char>, sep: char)
    requires
        !t.contains(sep),
    ensures
        split_on(s + t, sep) == split_on(s, sep).drop_last().push(split_on(s, sep).last() + t),
    decreases t.len(),
{
    lemma_split_len(s, sep);
    if t.len() == 0 {
        assert(s + t =~= s);
        assert(split_on(s, sep).last() + t =~= split_on(s, sep).last());
        assert(split_on(s, sep) =~= split_on(s, sep).drop_last().push(split_on(s, sep).last()));
    } else {
        assert forall|i: int| 0 <= i < t.drop_last().len() implies t.drop_last()[i] != sep by {
            assert(t.contains(t[i]));
        }
        lemma_split_append(s, t.drop_last(), sep);
        assert((s + t).drop_last() =~= s + t.drop_last());
        assert(t.contains(t.last()));
        let before = split_on(s + t.drop_last(), sep);
        assert(before.drop_last() =~= split_on(s, sep).drop_last());
        assert(before.last().push(t.last()) =~= split_on(s, sep).last() + t);
    }
}

proof fn lemma_split_first_kept(s: Seq<char>, t: Seq<char>, sep: char)
    requires
        split_on(s, sep).len() > 1,
    ensures
        split_on(s + t, sep).len() > 1,
        split_on(s + t, sep)[0] == split_on(s, sep)[0],
    decreases t.len(),
{
    if t.len() == 0 {
        assert(s + t =~= s);
    } else {
        lemma_split_first_kept(s, t.drop_last(), sep);
        assert((s + t).drop_last() =~= s + t.drop_last());
    }
}

/// The line of an item carries the number of the item, whatever the item is.
pub proof fn law_line_carries_number(i: nat, item: Seq<char>)
    requires
        i <= usize::MAX,
    ensures
        line_number(picker_line(i, item)) == Some(i as usize),
{
    let digits = decimal(i);
    lemma_decimal(i);
    assert forall|k: int| 0 <= k < digits.len() implies digits[k] != '\t' by {
        assert(is_digit(digits[k]));
    }
    let none = Seq::<char>::empty();
    lemma_split_append(none, digits, '\t');
    assert(none + digits =~= digits);
    assert(split_on(none, '\t').last() + digits =~= digits);
    assert(split_on(digits, '\t') =~= seq![digits]);
    let head = digits.push('\t');
    assert(head.drop_last() =~= digits);
    assert(split_on(head, '\t') =~= seq![digits, none]);
    lemma_split_first_kept(head, item, '\t');
    assert(is_digit(digits[0]));
}

proof fn lemma_split_joined(lines: Seq<Seq<char>>)
    requires
        forall|i: int| 0 <= i < lines.len() ==> !(#[trigger] lines[i]).contains('\n'),
    ensures
        split_on(joined_lines(lines), '\n') == lines.push(Seq::empty()),
    decreases lines.len(),
{
    if lines.len() == 0 {
        assert(split_on(joined_lines(lines), '\n') =~= lines.push(Seq::empty()));
    } else {
        let before = lines.drop_last();
        assert forall|i: int| 0 <= i < before.len() implies !(#[trigger] before[i]).contains(
            '\n',
        ) by {
            assert(before[i] == lines[i]);
        }
        lemma_split_joined(before);
        let text = joined_lines(before);
        assert(split_on(text, '\n').drop_last() =~= before);
        lemma_split_append(text, lines.last(), '\n');
        assert(Seq::<char>::empty() + lines.last() =~= lines.last());
        assert(before.push(lines.last()) =~= lines);
        assert(joined_lines(lines).drop_last() =~= text + lines.last());
    }
}

/// The lines of the chosen items, as the picker gives them back.
pub open spec fn chosen_lines(items: Seq<Seq<char>>, chosen: Seq<usize>) -> Seq<Seq<char>> {
    Seq::new(chosen.len(), |k: int| picker_line(chosen[k] as nat, items[chosen[k] as int]))
}

proof fn lemma_numbers_of_chosen(items: Seq<Seq<char>>, chosen: Seq<usize>)
    requires
        forall|k: int| 0 <= k < chosen.len() ==> #[trigger] chosen[k] < items.len(),
    ensures
        line_numbers(chosen_lines(items, chosen).map_values(|l: Seq<char>| without_cr(l)))
            == chosen,
    decreases chosen.len(),
{
    let ended = chosen_lines(items, chosen).map_values(|l: Seq<char>| without_cr(l));
    if chosen.len() == 0 {
        assert(ended =~= Seq::empty());
        assert(chosen =~= Seq::empty());
    } else {
        let before = chosen.drop_last();
        assert forall|k: int| 0 <= k < before.len() implies #[trigger] before[k]
            < items.len() by {
            assert(before[k] == chosen[k]);
        }
        lemma_numbers_of_chosen(items, before);
        assert(ended.drop_last() =~= chosen_lines(items, before).map_values(
            |l: Seq<char>| without_cr(l),
        ));
        let i = chosen.last();
        let item = items[i as int];
        let line = picker_line(i as nat, item);
        assert(ended.last() == without_cr(line));
        if line.last() == '\r' {
            if item.len() == 0 {
                assert(line.last() == '\t');
            }
            assert(without_cr(line) =~= picker_line(i as nat, item.drop_last()));
            law_line_carries_number(i as nat, item.drop_last());
        } else {
            law_line_carries_number(i as nat, item);
        }
        assert(before.push(i) =~= chosen);
    }
}

/// If the picker gives back the lines of some of the items, the choice is the
/// numbers of these items, in the order in which the lines came.
pub proof fn law_chosen_lines_are_selected(items: Seq<Seq<char>>, chosen: Seq<usize>)
    requires
        chosen.len() > 0,
        forall|k: int| 0 <= k < chosen.len() ==> #[trigger] chosen[k] < items.len(),
        forall|i: int| 0 <= i < items.len() ==> !(#[trigger] items[i]).contains('\n'),
    ensures
        is_selection(joined_lines(chosen_lines(items, chosen)), items.len(), Ok(chosen)),
{
    let picked = chosen_lines(items, chosen);
    assert forall|k: int| 0 <= k < picked.len() implies !(#[trigger] picked[k]).contains(
        '\n',
    ) by {
        let i = chosen[k];
        lemma_decimal(i as nat);
        assert(!items[i as int].contains('\n'));
        assert forall|j: int| 0 <= j < picked[k].len() implies picked[k][j] != '\n' by {
            let digits = decimal(i as nat);
            if j < digits.len() {
                assert(is_digit(digits[j]));
            } else if j > digits.len() {
                assert(picked[k][j] == items[i as int][j - digits.len() - 1]);
                assert(items[i as int].contains(items[i as int][j - digits.len() - 1]));
            }
        }
    }
    lemma_split_joined(picked);
    assert(picked.push(Seq::empty()).drop_last() =~= picked);
    assert(lines_of(joined_lines(picked)) == picked.map_values(|l: Seq<char>| without_cr(l)));
    lemma_numbers_of_chosen(items, chosen);
}

/// The picker is told of the items in their order, one line each: the number of items before it,
/// a tab, the whole of the item, and a line feed.
pub proof fn law_item_on_its_line(items: Seq<Seq<char>>, item: Seq<char>)
    ensures
        joined_lines(picker_lines(Seq::empty())) == Seq::<char>::empty(),
        joined_lines(picker_lines(items.push(item))) == joined_lines(picker_lines(items)) + decimal(
            items.len(),
        ) + seq!['\t'] + item + seq!['\n'],
{
    let more = picker_lines(items.push(item));
    assert(more.drop_last() =~= picker_lines(items));
    assert(more.last() == picker_line(items.len(), item));
    assert(joined_lines(more) =~= joined_lines(picker_lines(items)) + decimal(items.len())
        + seq!['\t'] + item + seq!['\n']);
}

/// More than one line can be chosen exactly if that is asked for; the prompt is handed over as it
/// is, and all but the first column of a line is shown.
pub proof fn law_picker_args(prompt: Seq<char>)
    ensures
        picker_args_of(true, prompt) == seq!["--multi"@] + picker_args_of(false, prompt),
        picker_args_of(false, prompt).len() == 6,
        picker_args_of(false, prompt)[0] == "--prompt"@,
        picker_args_of(false, prompt)[1] == prompt,
        picker_args_of(false, prompt)[2] == "--with-nth"@,
        picker_args_of(false, prompt)[3] == "2.."@,
        picker_args_of(false, prompt)[4] == "--delimiter"@,
        picker_args_of(false, prompt)[5] == seq!['\t'],
{
    reveal_strlit("\t");
    assert("\t"@ =~= seq!['\t']);
}

/// One output makes one choice, or gives one reason why there is none.
pub proof fn law_one_selection(
    text: Seq<char>,
    count: nat,
    a: Result<Seq<usize>, SelectError>,
    b: Result<Seq<usize>, SelectError>,
)
    requires
        is_selection(text, count, a),
        is_selection(text, count, b),
    ensures
        a == b,
{
    let numbers = line_numbers(lines_of(text));
    if let (Err(SelectError::OutOfRange(x)), Err(SelectError::OutOfRange(y))) = (a, b) {
        let k = choose|k: int|
            {
                &&& 0 <= k < numbers.len()
                &&& #[trigger] numbers[k] == x
                &&& x >= count
                &&& forall|j: int| 0 <= j < k ==> #[trigger] numbers[j] < count
            };
        let l = choose|k: int|
            {
                &&& 0 <= k < numbers.len()
                &&& #[trigger] numbers[k] == y
                &&& y >= count
                &&& forall|j: int| 0 <= j < k ==> #[trigger] numbers[j] < count
            };
        assert(numbers[k] == x && numbers[l] == y);
        assert(k == l);
    }
}

proof fn lemma_first_piece(s: Seq<char>, sep: char)
    ensures
        split_on(s, sep).len() > 0,
        split_on(s, sep)[0].is_prefix_of(s),
        split_on(s, sep).len() == 1 ==> split_on(s, sep)[0] == s,
    decreases s.len(),
{
    if s.len() > 0 {
        lemma_first_piece(s.drop_last(), sep);
        let before = split_on(s.drop_last(), sep);
        assert(s =~= s.drop_last().push(s.last()));
        if s.last() != sep && before.len() == 1 {
            assert(split_on(s, sep)[0] =~= s);
        }
    } else {
        assert(split_on(s, sep)[0] =~= s);
    }
}

/// The number of a line is what its digits say, up to a tab or its end. A line that begins with
/// neither a digit nor a plus has none, and neither has one whose number is too large.
pub proof fn law_line_number(n: nat, item: Seq<char>, line: Seq<char>)
    ensures
        line_number(decimal(n)) == if n <= usize::MAX {
            Some(n as usize)
        } else {
            None::<usize>
        },
        line_number(decimal(n) + seq!['\t'] + item) == line_number(decimal(n)),
        line.len() == 0 || !('0' <= line[0] <= '9' || line[0] == '+') ==> line_number(line) is None,
{
    let digits = decimal(n);
    lemma_decimal(n);
    assert forall|k: int| 0 <= k < digits.len() implies digits[k] != '\t' by {
        assert(is_digit(digits[k]));
    }
    let none = Seq::<char>::empty();
    lemma_split_append(none, digits, '\t');
    assert(none + digits =~= digits);
    assert(split_on(none, '\t').last() + digits =~= digits);
    assert(split_on(digits, '\t') =~= seq![digits]);
    let head = digits.push('\t');
    assert(head.drop_last() =~= digits);
    assert(split_on(head, '\t') =~= seq![digits, none]);
    lemma_split_first_kept(head, item, '\t');
    assert(digits + seq!['\t'] + item =~= head + item);
    crate::text::law_unsigned(n, usize::MAX as nat, digits);
    lemma_first_piece(line, '\t');
    let first = split_on(line, '\t')[0];
    crate::text::law_unsigned(n, usize::MAX as nat, first);
    if line_number(line) is Some {
        assert(first.len() > 0);
        assert(first[0] == line[0]);
        let shown = if first[0] == '+' {
            first.skip(1)
        } else {
            first
        };
        assert('0' <= shown[0] <= '9');
    }
}

/// A line with a number adds it behind the numbers before it, and a line without one adds
/// nothing: the numbers are neither sorted nor freed of repetitions.
pub proof fn law_line_numbers(lines: Seq<Seq<char>>, line: Seq<char>)
    ensures
        line_numbers(Seq::empty()) == Seq::<usize>::empty(),
        line_number(line) is None ==> line_numbers(lines.push(line)) == line_numbers(lines),
        line_number(line) matches Some(n) ==> line_numbers(lines.push(line)) == line_numbers(
            lines,
        ).push(n),
{
    assert(lines.push(line).drop_last() =~= lines);
}

/// What the numbers of the lines decide: none of them is no choice; the first that belongs to no
/// item is the one that is complained of; and otherwise all of them are the choice.
pub proof fn law_selection(text: Seq<char>, count: nat, k: int)
    ensures
        ({
            let numbers = line_numbers(lines_of(text));
            &&& numbers.len() == 0 ==> is_selection(text, count, Err(SelectError::Nothing))
            &&& 0 <= k < numbers.len() && numbers[k] >= count && (forall|j: int|
                0 <= j < k ==> numbers[j] < count) ==> is_selection(
                text,
                count,
                Err(SelectError::OutOfRange(numbers[k])),
            )
            &&& numbers.len() > 0 && (forall|j: int|
                0 <= j < numbers.len() ==> numbers[j] < count) ==> is_selection(
                text,
                count,
                Ok(numbers),
            )
        }),
{
}

} // verus!
