//! The elements of an announcement: `[NAME]data[/NAME]`, one after the other.
use crate::text::{
    find, find_bytes, lemma_find, lemma_find_is, matches_at, same_bytes, standing_at, stands_at,
};
use vstd::prelude::*;
use vstd::slice::slice_subrange;

verus! {

/// The opening bracket.
pub const OPEN: u8 = 0x5b;

/// The closing bracket.
pub const CLOSE: u8 = 0x5d;

/// The slash.
pub const SLASH: u8 = 0x2f;

/// A name with the bytes that stand under it.
#[derive(Clone, Copy, Debug, PartialEq, Eq)]
pub struct Element<'a> {
    pub name: &'a [u8],
    pub data: &'a [u8],
}

/// What an [`Element`] stands for.
#[verifier::ext_equal]
pub struct ElementView {
    pub name: Seq<u8>,
    pub data: Seq<u8>,
}

impl<'a> View for Element<'a> {
    type V = ElementView;

    open spec fn view(&self) -> ElementView {
        ElementView { name: self.name@, data: self.data@ }
    }
}

/// What starts an element.
pub open spec fn open_tag(name: Seq<u8>) -> Seq<u8> {
    seq![OPEN] + name + seq![CLOSE]
}

/// What starts the end of an element.
pub open spec fn end_mark() -> Seq<u8> {
    seq![OPEN, SLASH]
}

/// What ends an element.
pub open spec fn close_tag(name: Seq<u8>) -> Seq<u8> {
    end_mark() + name + seq![CLOSE]
}

impl ElementView {
    /// The element as it is written.
    pub open spec fn text(self) -> Seq<u8> {
        open_tag(self.name) + self.data + close_tag(self.name)
    }

    /// The element can be written: it has a name, and neither name nor data end it early.
    pub open spec fn valid(self) -> bool {
        &&& self.name.len() > 0
        &&& !self.name.contains(CLOSE)
        &&& find(self.data, end_mark()) is None
    }
}

/// The element that a text starts with, and what follows it.
pub open spec fn first_element(text: Seq<u8>) -> Option<(ElementView, Seq<u8>)> {
    if text.len() == 0 || text[0] != OPEN {
        None
    } else {
        let inner = text.skip(1);
        match find(inner, seq![CLOSE]) {
            Some(n) if n > 0 => {
                let name = inner.take(n);
                let body = inner.skip(n + 1);
                match find(body, end_mark()) {
                    Some(d) if close_tag(name).is_prefix_of(body.skip(d)) => Some(
                        (
                            ElementView { name, data: body.take(d) },
                            body.skip(d).skip(close_tag(name).len() as int),
                        ),
                    ),
                    _ => None,
                }
            },
            _ => None,
        }
    }
}

/// The elements that a text starts with, up to where no element stands.
pub open spec fn all_elements(text: Seq<u8>) -> Seq<ElementView>
    decreases text.len(),
{
    match first_element(text) {
        Some((element, rest)) => {
            proof {
                element_reads_back(text, element, rest);
            }
            seq![element] + all_elements(rest)
        },
        None => Seq::empty(),
    }
}

/// The data of the last element with a name.
pub open spec fn element_data(elements: Seq<ElementView>, name: Seq<u8>) -> Option<Seq<u8>>
    decreases elements.len(),
{
    if elements.len() == 0 {
        None
    } else if elements.last().name == name {
        Some(elements.last().data)
    } else {
        element_data(elements.drop_last(), name)
    }
}

/// An element, followed by anything, is read back as it was written; and whatever is read as an
/// element is written that way.
pub proof fn element_reads_back(text: Seq<u8>, element: ElementView, rest: Seq<u8>)
    ensures
        first_element(text) == Some((element, rest)) <==> element.valid() && text == element.text()
            + rest,
{
    if first_element(text) == Some((element, rest)) {
        lemma_first_element_text(text, element, rest);
    }
    if element.valid() && text == element.text() + rest {
        lemma_text_first_element(element, rest);
    }
}

/// What stands before the first closing bracket holds none.
proof fn lemma_before_close(inner: Seq<u8>)
    ensures
        match find(inner, seq![CLOSE]) {
            Some(n) => {
                &&& 0 <= n < inner.len()
                &&& !inner.take(n).contains(CLOSE)
                &&& inner == inner.take(n) + seq![CLOSE] + inner.skip(n + 1)
            },
            None => true,
        },
{
    lemma_find(inner, seq![CLOSE]);
    if let Some(n) = find(inner, seq![CLOSE]) {
        let name = inner.take(n);
        assert(inner.subrange(n, n + 1)[0] == CLOSE);
        assert(inner =~= name + seq![CLOSE] + inner.skip(n + 1));
        if name.contains(CLOSE) {
            let j = choose|j: int| 0 <= j < name.len() && name[j] == CLOSE;
            assert(inner.subrange(j, j + 1) =~= seq![CLOSE]);
            assert(stands_at(inner, seq![CLOSE], j));
        }
    }
}

/// What stands before the first end mark holds none.
proof fn lemma_before_mark(body: Seq<u8>)
    ensures
        match find(body, end_mark()) {
            Some(d) => {
                &&& 0 <= d <= body.len()
                &&& find(body.take(d), end_mark()) is None
            },
            None => true,
        },
{
    lemma_find(body, end_mark());
    if let Some(d) = find(body, end_mark()) {
        let data = body.take(d);
        lemma_find(data, end_mark());
        if let Some(j) = find(data, end_mark()) {
            assert(body.subrange(j, j + 2) =~= data.subrange(j, j + 2));
            assert(stands_at(body, end_mark(), j));
        }
    }
}

proof fn lemma_first_element_text(text: Seq<u8>, element: ElementView, rest: Seq<u8>)
    requires
        first_element(text) == Some((element, rest)),
    ensures
        element.valid(),
        text == element.text() + rest,
{
    let inner = text.skip(1);
    let n = find(inner, seq![CLOSE])->0;
    let name = inner.take(n);
    let body = inner.skip(n + 1);
    let d = find(body, end_mark())->0;
    let tail = body.skip(d);
    let close = close_tag(name);
    lemma_before_close(inner);
    lemma_before_mark(body);
    assert(tail =~= close + rest);
    assert(body =~= element.data + tail);
    assert(text =~= seq![OPEN] + inner);
    lemma_join(name, element.data, close, rest);
}

/// The parts of an element, put together one after the other.
proof fn lemma_join(name: Seq<u8>, data: Seq<u8>, close: Seq<u8>, rest: Seq<u8>)
    ensures
        seq![OPEN] + (name + seq![CLOSE] + (data + (close + rest))) == open_tag(name) + data + close
            + rest,
{
    assert(seq![OPEN] + (name + seq![CLOSE] + (data + (close + rest))) =~= open_tag(name) + data
        + close + rest);
}

/// A name without closing bracket ends at the first one.
proof fn lemma_find_close(name: Seq<u8>, body: Seq<u8>)
    requires
        !name.contains(CLOSE),
    ensures
        find(name + seq![CLOSE] + body, seq![CLOSE]) == Some(name.len() as int),
        (name + seq![CLOSE] + body).take(name.len() as int) == name,
        (name + seq![CLOSE] + body).skip(name.len() as int + 1) == body,
{
    let inner = name + seq![CLOSE] + body;
    let n = name.len() as int;
    assert(inner.subrange(n, n + 1) =~= seq![CLOSE]);
    assert forall|j: int| 0 <= j < n implies !stands_at(inner, seq![CLOSE], j) by {
        if stands_at(inner, seq![CLOSE], j) {
            assert(inner.subrange(j, j + 1)[0] == CLOSE);
            assert(name[j] == CLOSE);
        }
    }
    lemma_find_is(inner, seq![CLOSE], n);
    assert(inner.take(n) =~= name);
    assert(inner.skip(n + 1) =~= body);
}

/// Data without end mark ends at the first one.
proof fn lemma_find_mark(data: Seq<u8>, tail: Seq<u8>)
    requires
        find(data, end_mark()) is None,
        tail.len() >= 2,
        tail.take(2) == end_mark(),
    ensures
        find(data + tail, end_mark()) == Some(data.len() as int),
        (data + tail).take(data.len() as int) == data,
        (data + tail).skip(data.len() as int) == tail,
{
    let body = data + tail;
    let d = data.len() as int;
    let mark = end_mark();
    assert(body.subrange(d, d + 2) =~= tail.take(2));
    lemma_find(data, mark);
    assert forall|j: int| 0 <= j < d implies !stands_at(body, mark, j) by {
        if stands_at(body, mark, j) {
            assert(body.subrange(j, j + 2)[1] == SLASH);
            if j + 2 <= d {
                assert(data.subrange(j, j + 2) =~= body.subrange(j, j + 2));
                assert(stands_at(data, mark, j));
            } else {
                assert(tail.take(2)[0] == OPEN);
                assert(body[d] == tail[0]);
            }
        }
    }
    lemma_find_is(body, mark, d);
    assert(body.take(d) =~= data);
    assert(body.skip(d) =~= tail);
}

proof fn lemma_text_first_element(element: ElementView, rest: Seq<u8>)
    requires
        element.valid(),
    ensures
        first_element(element.text() + rest) == Some((element, rest)),
{
    let text = element.text() + rest;
    let name = element.name;
    let close = close_tag(name);
    let tail = close + rest;
    let body = element.data + tail;
    let inner = name + seq![CLOSE] + body;
    lemma_join(name, element.data, close, rest);
    assert((seq![OPEN] + inner).skip(1) =~= inner);
    lemma_find_close(name, body);
    assert(tail.take(2) =~= end_mark());
    lemma_find_mark(element.data, tail);
    assert(tail.subrange(0, close.len() as int) =~= close);
    assert(tail.skip(close.len() as int) =~= rest);
}

/// A text that starts with an element holds that element and those that follow.
pub proof fn lemma_all_elements_step(element: ElementView, rest: Seq<u8>)
    requires
        element.valid(),
    ensures
        all_elements(element.text() + rest) == seq![element] + all_elements(rest),
{
    lemma_text_first_element(element, rest);
}

/// Reads the element that a text starts with.
pub fn element<'a>(input: &'a [u8]) -> (result: Option<(&'a [u8], Element<'a>)>)
    ensures
        match result {
            Some((rest, element)) => first_element(input@) == Some((element@, rest@)),
            None => first_element(input@) is None,
        },
{
    let len: usize = input.len();
    if len == 0 || input[0] != OPEN {
        return None;
    }
    let inner = slice_subrange(input, 1, len);
    assert(inner@ =~= input@.skip(1));
    let close = [CLOSE];
    assert(close@ =~= seq![CLOSE]);
    let n: usize = match find_bytes(inner, close.as_slice()) {
        Some(n) => n,
        None => {
            return None;
        },
    };
    if n == 0 {
        return None;
    }
    let name = slice_subrange(inner, 0, n);
    let body = slice_subrange(inner, n + 1, inner.len());
    assert(name@ =~= inner@.take(n as int));
    assert(body@ =~= inner@.skip(n + 1));
    let mark = [OPEN, SLASH];
    assert(mark@ =~= end_mark());
    let d: usize = match find_bytes(body, mark.as_slice()) {
        Some(d) => d,
        None => {
            return None;
        },
    };
    let data = slice_subrange(body, 0, d);
    assert(data@ =~= body@.take(d as int));
    let tail = slice_subrange(body, d, body.len());
    assert(tail@ =~= body@.skip(d as int));
    proof {
        lemma_find(body@, end_mark());
        assert(body@.subrange(d as int, d + 2) =~= tail@.take(2));
        lemma_close_tag(tail@, name@);
    }
    let named = matches_at(tail, name, 2);
    if !named {
        return None;
    }
    let end: usize = 2 + n;
    if end >= tail.len() || tail[end] != CLOSE {
        return None;
    }
    let rest = slice_subrange(tail, end + 1, tail.len());
    assert(rest@ =~= tail@.skip(close_tag(name@).len() as int));
    Some((rest, Element { name, data }))
}

/// What it takes for a text that starts with the mark to start with the end of an element.
proof fn lemma_close_tag(tail: Seq<u8>, name: Seq<u8>)
    requires
        tail.len() >= 2,
        tail.take(2) == end_mark(),
    ensures
        close_tag(name).is_prefix_of(tail) <==> stands_at(tail, name, 2) && 2 + name.len()
            < tail.len() && tail[2 + name.len() as int] == CLOSE,
{
    let close = close_tag(name);
    let n = name.len() as int;
    if close.is_prefix_of(tail) {
        assert(tail.subrange(2, 2 + n) =~= name) by {
            assert forall|j: int| 0 <= j < n implies tail.subrange(2, 2 + n)[j] == name[j] by {
                assert(close[2 + j] == tail[2 + j]);
            }
        }
        assert(close[2 + n] == tail[2 + n]);
    }
    if stands_at(tail, name, 2) && 2 + n < tail.len() && tail[2 + n] == CLOSE {
        assert forall|j: int| 0 <= j < close.len() implies close[j] == tail[j] by {
            if j < 2 {
                assert(tail.take(2)[j] == tail[j]);
            } else if j < 2 + n {
                assert(tail.subrange(2, 2 + n)[j - 2] == tail[j]);
            }
        }
        assert(tail.subrange(0, close.len() as int) =~= close);
    }
}

/// Reads the elements that a text starts with.
pub fn elements<'a>(input: &'a [u8]) -> (elements: Vec<Element<'a>>)
    ensures
        elements@.map_values(|element: Element<'a>| element@) == all_elements(input@),
{
    let mut elements: Vec<Element<'a>> = Vec::new();
    let mut rest: &'a [u8] = input;
    let ghost view = |element: Element<'a>| element@;
    assert(elements@.map_values(view) =~= Seq::empty());
    assert(elements@.map_values(view) + all_elements(rest@) =~= all_elements(input@));
    loop
        invariant
            elements@.map_values(view) + all_elements(rest@) == all_elements(input@),
            view == (|element: Element<'a>| element@),
        ensures
            elements@.map_values(view) == all_elements(input@),
        decreases rest@.len(),
    {
        match element(rest) {
            Some((after, element)) => {
                let ghost before = elements@.map_values(view);
                proof {
                    element_reads_back(rest@, element@, after@);
                }
                elements.push(element);
                assert(elements@.map_values(view) =~= before.push(element@));
                assert(before.push(element@) + all_elements(after@) =~= before + (seq![element@]
                    + all_elements(after@)));
                rest = after;
            },
            None => {
                assert(elements@.map_values(view) + Seq::empty() =~= elements@.map_values(view));
                break;
            },
        }
    }
    elements
}

/// Looks up the data of the last element with a name.
pub fn lookup<'a>(elements: &Vec<Element<'a>>, name: &[u8]) -> (data: Option<&'a [u8]>)
    ensures
        match data {
            Some(data) => element_data(
                elements@.map_values(|element: Element<'a>| element@),
                name@,
            ) == Some(data@),
            None => element_data(
                elements@.map_values(|element: Element<'a>| element@),
                name@,
            ) is None,
        },
{
    let ghost views = elements@.map_values(|element: Element<'a>| element@);
    let mut i: usize = elements.len();
    assert(views.take(i as int) =~= views);
    while i > 0
        invariant
            i <= elements@.len(),
            views == elements@.map_values(|element: Element<'a>| element@),
            element_data(views, name@) == element_data(views.take(i as int), name@),
        decreases i,
    {
        i = i - 1;
        let element = elements[i];
        assert(views.take(i + 1).drop_last() =~= views.take(i as int));
        assert(views.take(i + 1).last() == element@);
        if same_bytes(element.name, name) {
            return Some(element.data);
        }
    }
    None
}

/// An element is its name in brackets, the data, and the name in brackets after a slash. It needs
/// a name, in which no bracket closes, and data without the start of an end.
pub proof fn writing_an_element(element: ElementView)
    ensures
        element.text() == seq![0x5bu8] + element.name + seq![0x5du8] + element.data + seq![
            0x5bu8,
            0x2fu8,
        ] + element.name + seq![0x5du8],
        element.valid() <==> {
            &&& element.name.len() > 0
            &&& forall|i: int| 0 <= i < element.name.len() ==> #[trigger] element.name[i] != 0x5d
            &&& forall|i: int|
                0 <= i < element.data.len() - 1 && #[trigger] element.data[i] == 0x5b
                    ==> element.data[i + 1] != 0x2f
        },
{
    assert(element.text() =~= seq![0x5bu8] + element.name + seq![0x5du8] + element.data + seq![
        0x5bu8,
        0x2fu8,
    ] + element.name + seq![0x5du8]);
    let data = element.data;
    lemma_find(data, end_mark());
    if let Some(i) = find(data, end_mark()) {
        standing_at(data, end_mark(), i);
        assert(end_mark()[0] == data[i + 0]);
        assert(end_mark()[1] == data[i + 1]);
    } else {
        assert forall|i: int|
            0 <= i < data.len() - 1 && #[trigger] data[i] == 0x5b implies data[i + 1] != 0x2f by {
            standing_at(data, end_mark(), i);
            if data[i + 1] == 0x2f {
                assert forall|k: int| 0 <= k < end_mark().len() implies data[i + k]
                    == #[trigger] end_mark()[k] by {
                    if k == 0 {
                    } else {
                        assert(k == 1);
                    }
                }
            }
        }
    }
    assert(element.name.contains(CLOSE) <==> exists|i: int|
        0 <= i < element.name.len() && element.name[i] == 0x5d);
}

/// Elements are read one after the other, up to where none stands.
pub proof fn reading_elements(text: Seq<u8>)
    ensures
        match first_element(text) {
            Some((element, rest)) => {
                &&& all_elements(text).len() == all_elements(rest).len() + 1
                &&& all_elements(text)[0] == element
                &&& forall|i: int|
                    0 <= i < all_elements(rest).len() ==> all_elements(text)[i + 1]
                        == #[trigger] all_elements(rest)[i]
            },
            None => all_elements(text).len() == 0,
        },
{
}

/// What stands under a name is what the last element with that name holds.
pub proof fn looking_up(elements: Seq<ElementView>, name: Seq<u8>)
    ensures
        match element_data(elements, name) {
            Some(data) => exists|i: int|
                {
                    &&& 0 <= i < elements.len()
                    &&& (#[trigger] elements[i]).name == name
                    &&& elements[i].data == data
                    &&& forall|j: int| i < j < elements.len() ==> (#[trigger] elements[j]).name
                        != name
                },
            None => forall|i: int|
                0 <= i < elements.len() ==> (#[trigger] elements[i]).name != name,
        },
    decreases elements.len(),
{
    if elements.len() > 0 {
        let last = elements.len() - 1;
        if elements[last].name != name {
            let before = elements.drop_last();
            looking_up(before, name);
            if element_data(before, name) is Some {
                let data = element_data(before, name)->0;
                let i = choose|i: int|
                    {
                        &&& 0 <= i < before.len()
                        &&& (#[trigger] before[i]).name == name
                        &&& before[i].data == data
                        &&& forall|j: int| i < j < before.len() ==> (#[trigger] before[j]).name
                            != name
                    };
                assert(elements[i] == before[i]);
                assert forall|j: int| i < j < elements.len() implies (
                #[trigger] elements[j]).name != name by {
                    if j < last {
                        assert(before[j] == elements[j]);
                    }
                }
            } else {
                assert forall|i: int| 0 <= i < elements.len() implies (
                #[trigger] elements[i]).name != name by {
                    if i < last {
                        assert(before[i] == elements[i]);
                    }
                }
            }
        } else {
            assert(elements[last].name == name);
        }
    }
}

/// An element stands for its whole name and all its data.
pub proof fn reading_an_element(element: Element)
    ensures
        element@.name == element.name@,
        element@.data == element.data@,
{
}

} // verus!
