//! Reading a buoy's standard-meteorological text: the whitespace-separated
//! columns of a record, and the wind-speed and wave-height fields of every
//! record of one day. The fields are handed back as text; reading them as
//! numbers and averaging them is the caller's floating-point work.
use vstd::prelude::*;
use crate::text::{chars_of, deep, lines, lines_exec, parse_u32, parse_u32_spec, starts_with, starts_with_str, string_of, words, words_exec};

verus! {

/// The wind-speed and wave-height fields (columns 6 and 8) of a record of
/// the given day: a line that is not a comment, has at least nine columns,
/// and whose year, month and day columns read as the date.
pub open spec fn day_fields(line: Seq<char>, year_text: Seq<char>, month: u32, day: u32) -> Option<(Seq<char>, Seq<char>)> {
    let cols = words(line);
    if starts_with(line, "#"@) || cols.len() < 9 {
        None
    } else if cols[0] == year_text && parse_u32_spec(cols[1]) == Some(month) && parse_u32_spec(cols[2]) == Some(day) {
        Some((cols[6], cols[8]))
    } else {
        None
    }
}

/// The fields of the day's records among `ls`, in order.
pub open spec fn day_records_spec(ls: Seq<Seq<char>>, year_text: Seq<char>, month: u32, day: u32) -> Seq<(Seq<char>, Seq<char>)>
    decreases ls.len(),
{
    if ls.len() == 0 {
        Seq::empty()
    } else {
        let rest = day_records_spec(ls.drop_last(), year_text, month, day);
        match day_fields(ls.last(), year_text, month, day) {
            Some(f) => rest.push(f),
            None => rest,
        }
    }
}

/// The wind-speed and wave-height texts of every record of one day in a
/// buoy's text (see `day_fields`), in file order.
pub fn day_records(body: &str, year_text: &str, month: u32, day: u32) -> (r: Vec<(String, String)>)
    ensures
        r@.map_values(|f: (String, String)| (f.0@, f.1@)) == day_records_spec(lines(body@), year_text@, month, day),
{
    let text = chars_of(body);
    let ls = lines_exec(&text);
    let year = chars_of(year_text);
    let ghost lv = lines(body@);
    let mut out: Vec<(String, String)> = Vec::new();
    let mut i: usize = 0;
    while i < ls.len()
        invariant
            i <= ls.len(),
            deep(ls@) == lv,
            lv == lines(body@),
            year@ == year_text@,
            out@.map_values(|f: (String, String)| (f.0@, f.1@)) == day_records_spec(lv.take(i as int), year_text@, month, day),
        decreases ls.len() - i,
    {
        assert(lv.take(i + 1).drop_last() =~= lv.take(i as int));
        assert(ls@[i as int]@ == lv[i as int]);
        let line = &ls[i];
        if !starts_with_str(line, "#") {
            let cols = words_exec(line);
            if cols.len() >= 9 {
                assert(deep(cols@)[0] == cols@[0]@ && deep(cols@)[1] == cols@[1]@ && deep(cols@)[2] == cols@[2]@);
                assert(deep(cols@)[6] == cols@[6]@ && deep(cols@)[8] == cols@[8]@);
                if crate::text::chars_eq(&cols[0], &year) && parse_u32(&cols[1]) == Some(month) && parse_u32(&cols[2])
                    == Some(day) {
                    let ghost prev = out@;
                    let wspd = string_of(&cols[6]);
                    let wvht = string_of(&cols[8]);
                    out.push((wspd, wvht));
                    assert(out@.map_values(|f: (String, String)| (f.0@, f.1@)) =~= prev.map_values(
                        |f: (String, String)| (f.0@, f.1@),
                    ).push((cols@[6]@, cols@[8]@)));
                }
            }
        }
        i = i + 1;
    }
    assert(lv.take(ls.len() as int) =~= lv);
    out
}

} // verus!
