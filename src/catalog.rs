use vstd::prelude::*;
use crate::model::{Course, Unit};
use crate::page::{decimal_of, push_decimal};
use crate::text::{int_value, parse_int, push_char};

verus! {

/// The decimal spelling of an integer, with a leading `-` when it is negative.
pub open spec fn int_decimal_of(n: int) -> Seq<char> {
    if n < 0 {
        seq!['-'] + decimal_of((-n) as nat)
    } else {
        decimal_of(n as nat)
    }
}

/// The decimal spelling of `n`.
pub fn int_to_string(n: i32) -> (r: String)
    ensures
        r@ == int_decimal_of(n as int),
{
    let mut s = String::new();
    if n < 0 {
        push_char(&mut s, '-');
        let m: u32 = if n == i32::MIN {
            0x8000_0000u32
        } else {
            (-n) as u32
        };
        push_decimal(&mut s, m);
    } else {
        push_decimal(&mut s, n as u32);
    }
    proof {
        assert(s@ =~= int_decimal_of(n as int));
    }
    s
}

/// `s` with every space turned into `+`.
pub open spec fn plus_for_space(s: Seq<char>) -> Seq<char> {
    s.map_values(|c: char| if c == ' ' { '+' } else { c })
}

/// The value of the course selector of the search form: code, `:::`, then the name with
/// its spaces written as `+`.
pub open spec fn course_selector_of(code: Seq<char>, name: Seq<char>) -> Seq<char> {
    code + seq![':', ':', ':'] + plus_for_space(name)
}

pub fn course_selector(course: &Course) -> (r: String)
    ensures
        r@ == course_selector_of(course.code@, course.name@),
{
    let mut s = course.code.clone();
    push_char(&mut s, ':');
    push_char(&mut s, ':');
    push_char(&mut s, ':');
    let ghost head = s@;
    let len = course.name.as_str().unicode_len();
    let mut i: usize = 0;
    while i < len
        invariant
            i <= len == course.name@.len(),
            head == course.code@ + seq![':', ':', ':'],
            s@ == head + plus_for_space(course.name@.subrange(0, i as int)),
        decreases len - i,
    {
        let c = course.name.as_str().get_char(i);
        if c == ' ' {
            push_char(&mut s, '+');
        } else {
            push_char(&mut s, c);
        }
        proof {
            assert(plus_for_space(course.name@.subrange(0, i + 1)) =~= plus_for_space(
                course.name@.subrange(0, i as int),
            ).push(if c == ' ' { '+' } else { c }));
        }
        i = i + 1;
    }
    proof {
        assert(course.name@.subrange(0, len as int) =~= course.name@);
    }
    s
}

pub const FIELD_EVENT_TARGET: &'static str = "__EVENTTARGET";

pub const FIELD_UNIT: &'static str = "ctl00$ctl00$ContentPlaceHolder1$EvalsContentPlaceHolder$ddlUnit";

pub const FIELD_COURSE: &'static str =
    "ctl00$ctl00$ContentPlaceHolder1$EvalsContentPlaceHolder$CascadingDropDown4_ClientState";

pub const FIELD_SUBMIT: &'static str =
    "ctl00$ctl00$ContentPlaceHolder1$EvalsContentPlaceHolder$btnSubmit";

pub const SUBMIT_VALUE: &'static str = "Search";

/// The fields of the search form that lists the evaluation reports of `course`, in order:
/// an empty event target, the unit id, the course selector, and the submit button.
pub fn search_form(course: &Course) -> (r: Vec<(String, String)>)
    ensures
        r@.len() == 4,
        r@[0].0@ == FIELD_EVENT_TARGET@ && r@[0].1@ == Seq::<char>::empty(),
        r@[1].0@ == FIELD_UNIT@ && r@[1].1@ == int_decimal_of(course.unit_id as int),
        r@[2].0@ == FIELD_COURSE@ && r@[2].1@ == course_selector_of(course.code@, course.name@),
        r@[3].0@ == FIELD_SUBMIT@ && r@[3].1@ == SUBMIT_VALUE@,
{
    let mut form: Vec<(String, String)> = Vec::new();
    form.push((String::from_str(FIELD_EVENT_TARGET), String::new()));
    form.push((String::from_str(FIELD_UNIT), int_to_string(course.unit_id)));
    form.push((String::from_str(FIELD_COURSE), course_selector(course)));
    form.push((String::from_str(FIELD_SUBMIT), String::from_str(SUBMIT_VALUE)));
    form
}

/// The units of a catalog answer: each `(name, value)` item whose value is a unit id, a
/// signed 32-bit integer (see `int_value`).
pub open spec fn units_of(items: Seq<(String, String)>) -> Seq<(Seq<char>, i32)>
    decreases items.len(),
{
    if items.len() == 0 {
        Seq::empty()
    } else {
        let p = units_of(items.drop_last());
        match int_value(items.last().1@) {
            Some(id) => p.push((items.last().0@, id)),
            None => p,
        }
    }
}

pub open spec fn unit_views(units: Seq<Unit>) -> Seq<(Seq<char>, i32)> {
    units.map_values(|u: Unit| (u.name@, u.id))
}

/// Reads the units out of the `(name, value)` items of a catalog answer, skipping items
/// whose value is not a unit id.
pub fn units_from_items(items: &Vec<(String, String)>) -> (r: Vec<Unit>)
    ensures
        unit_views(r@) == units_of(items@),
{
    let mut out: Vec<Unit> = Vec::new();
    let mut i: usize = 0;
    while i < items.len()
        invariant
            i <= items@.len(),
            unit_views(out@) == units_of(items@.subrange(0, i as int)),
        decreases items@.len() - i,
    {
        proof {
            assert(items@.subrange(0, i + 1).drop_last() =~= items@.subrange(0, i as int));
        }
        match parse_int(items[i].1.as_str()) {
            Some(id) => {
                out.push(Unit { id, name: items[i].0.clone() });
                proof {
                    assert(unit_views(out@) =~= units_of(items@.subrange(0, i + 1)));
                }
            },
            None => {},
        }
        i = i + 1;
    }
    proof {
        assert(items@.subrange(0, items@.len() as int) =~= items@);
    }
    out
}

/// The courses of a unit from the `(name, value)` items of a catalog answer: the value is
/// the course code.
pub fn courses_from_items(unit_id: i32, items: &Vec<(String, String)>) -> (r: Vec<Course>)
    ensures
        r@.len() == items@.len(),
        forall|i: int|
            0 <= i < r@.len() ==> (#[trigger] r@[i]).code@ == items@[i].1@ && r@[i].name@
                == items@[i].0@ && r@[i].unit_id == unit_id,
{
    let mut out: Vec<Course> = Vec::new();
    let mut i: usize = 0;
    while i < items.len()
        invariant
            i <= items@.len(),
            out@.len() == i,
            forall|k: int|
                0 <= k < i ==> (#[trigger] out@[k]).code@ == items@[k].1@ && out@[k].name@
                    == items@[k].0@ && out@[k].unit_id == unit_id,
        decreases items@.len() - i,
    {
        out.push(Course { code: items[i].1.clone(), name: items[i].0.clone(), unit_id });
        i = i + 1;
    }
    out
}

/// Some course of `cs` has code `code`.
pub open spec fn has_code(cs: Seq<Course>, code: Seq<char>) -> bool {
    exists|j: int| 0 <= j < cs.len() && (#[trigger] cs[j]).code@ == code
}

/// Some course of `cs` has the code, name and unit of `c`.
pub open spec fn has_course(cs: Seq<Course>, c: Course) -> bool {
    exists|j: int|
        0 <= j < cs.len() && (#[trigger] cs[j]).code@ == c.code@ && cs[j].name@ == c.name@
            && cs[j].unit_id == c.unit_id
}

/// The courses with the codes in first-seen order, each code once, keeping the first course
/// seen with that code.
pub fn unique_courses(courses: &Vec<Course>) -> (r: Vec<Course>)
    ensures
        forall|i: int, j: int|
            0 <= i < j < r@.len() ==> (#[trigger] r@[i]).code@ != (#[trigger] r@[j]).code@,
        forall|i: int| 0 <= i < courses@.len() ==> has_code(r@, (#[trigger] courses@[i]).code@),
        forall|j: int| 0 <= j < r@.len() ==> has_course(courses@, #[trigger] r@[j]),
{
    let mut out: Vec<Course> = Vec::new();
    let ghost mut src: Seq<int> = Seq::empty();
    let ghost mut pos: Seq<int> = Seq::empty();
    let mut i: usize = 0;
    while i < courses.len()
        invariant
            i <= courses@.len(),
            forall|a: int, b: int|
                0 <= a < b < out@.len() ==> (#[trigger] out@[a]).code@ != (#[trigger] out@[b]).code@,
            src.len() == out@.len(),
            forall|j: int|
                0 <= j < out@.len() ==> 0 <= #[trigger] src[j] < i && courses@[src[j]].code@
                    == out@[j].code@ && courses@[src[j]].name@ == out@[j].name@
                    && courses@[src[j]].unit_id == out@[j].unit_id,
            pos.len() == i,
            forall|a: int|
                0 <= a < i ==> 0 <= #[trigger] pos[a] < out@.len() && out@[pos[a]].code@
                    == courses@[a].code@,
        decreases courses@.len() - i,
    {
        let mut found: Option<usize> = None;
        let mut k: usize = 0;
        while k < out.len()
            invariant
                i < courses@.len(),
                k <= out@.len(),
                found is None ==> forall|b: int|
                    0 <= b < k ==> (#[trigger] out@[b]).code@ != courses@[i as int].code@,
                found matches Some(f) ==> f < out@.len() && out@[f as int].code@
                    == courses@[i as int].code@,
            decreases out@.len() - k,
        {
            if found.is_none() && out[k].code == courses[i].code {
                found = Some(k);
            }
            k = k + 1;
        }
        match found {
            Some(f) => {
                proof {
                    pos = pos.push(f as int);
                }
            },
            None => {
                let ghost before = out@;
                let c = Course {
                    code: courses[i].code.clone(),
                    name: courses[i].name.clone(),
                    unit_id: courses[i].unit_id,
                };
                out.push(c);
                proof {
                    src = src.push(i as int);
                    pos = pos.push(before.len() as int);
                    assert forall|a: int, b: int|
                        0 <= a < b < out@.len() implies (#[trigger] out@[a]).code@ != (
                        #[trigger] out@[b]).code@ by {
                        assert(out@[a] == before[a]);
                        if b < before.len() {
                            assert(out@[b] == before[b]);
                        }
                    }
                    assert forall|j: int| 0 <= j < out@.len() implies 0 <= #[trigger] src[j] < i + 1
                        && courses@[src[j]].code@ == out@[j].code@ && courses@[src[j]].name@
                        == out@[j].name@ && courses@[src[j]].unit_id == out@[j].unit_id by {
                        if j < before.len() {
                            assert(out@[j] == before[j]);
                        }
                    }
                    assert forall|a: int| 0 <= a < i + 1 implies 0 <= #[trigger] pos[a] < out@.len()
                        && out@[pos[a]].code@ == courses@[a].code@ by {
                        if a < i {
                            assert(out@[pos[a]] == before[pos[a]]);
                        }
                    }
                }
            },
        }
        i = i + 1;
    }
    proof {
        assert forall|a: int| 0 <= a < courses@.len() implies has_code(
            out@,
            (#[trigger] courses@[a]).code@,
        ) by {
            assert(out@[pos[a]].code@ == courses@[a].code@);
        }
        assert forall|j: int| 0 <= j < out@.len() implies has_course(courses@, #[trigger] out@[j]) by {
            assert(courses@[src[j]].code@ == out@[j].code@);
        }
    }
    out
}

} // verus!
