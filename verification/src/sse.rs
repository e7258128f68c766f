//! Server-sent events as bytes: where an event ends, what its data is, and how
//! its data is replaced.
use vstd::prelude::*;

verus! {

/// Whether a byte ends a line.
pub open spec fn is_break(byte: u8) -> bool {
    byte == 10 || byte == 13
}

/// How many bytes stand before the first end of a line.
pub open spec fn line_len(bytes: Seq<u8>) -> nat
    decreases bytes.len(),
{
    if bytes.len() == 0 || is_break(bytes[0]) {
        0
    } else {
        1 + line_len(bytes.skip(1))
    }
}

/// How many bytes the end of a line at `at` takes: a carriage return and the
/// line feed behind it are one end.
pub open spec fn break_len(bytes: Seq<u8>, at: int) -> nat {
    if bytes[at] == 13 && at + 1 < bytes.len() && bytes[at + 1] == 10 {
        2
    } else {
        1
    }
}

/// Whether the first line has an end.
pub open spec fn has_line(bytes: Seq<u8>) -> bool {
    line_len(bytes) < bytes.len()
}

/// The first line, without its end.
pub open spec fn first_line(bytes: Seq<u8>) -> Seq<u8> {
    bytes.take(line_len(bytes) as int)
}

/// The length of the first line with its end.
pub open spec fn full_line_len(bytes: Seq<u8>) -> nat {
    line_len(bytes) + break_len(bytes, line_len(bytes) as int)
}

/// What follows the first line.
pub open spec fn after_line(bytes: Seq<u8>) -> Seq<u8> {
    bytes.skip(full_line_len(bytes) as int)
}

proof fn line_len_bounds(bytes: Seq<u8>)
    ensures
        line_len(bytes) <= bytes.len(),
        has_line(bytes) ==> is_break(bytes[line_len(bytes) as int]) && 1 <= full_line_len(bytes)
            <= bytes.len(),
        forall|i: int| 0 <= i < line_len(bytes) ==> !is_break(#[trigger] bytes[i]),
    decreases bytes.len(),
{
    if bytes.len() > 0 && !is_break(bytes[0]) {
        let rest = bytes.skip(1);
        line_len_bounds(rest);
        if has_line(rest) {
            assert(bytes[line_len(bytes) as int] == rest[line_len(rest) as int]);
        }
        assert forall|i: int| 0 <= i < line_len(bytes) implies !is_break(#[trigger] bytes[i]) by {
            if i > 0 {
                assert(bytes[i] == rest[i - 1]);
            }
        }
    }
}

proof fn line_len_is(bytes: Seq<u8>, at: int)
    requires
        0 <= at <= bytes.len(),
        forall|i: int| 0 <= i < at ==> !is_break(#[trigger] bytes[i]),
        at == bytes.len() || is_break(bytes[at]),
    ensures
        line_len(bytes) == at,
    decreases at,
{
    if at > 0 {
        let rest = bytes.skip(1);
        assert forall|i: int| 0 <= i < at - 1 implies !is_break(#[trigger] rest[i]) by {
            assert(rest[i] == bytes[i + 1]);
        }
        line_len_is(rest, at - 1);
    }
}

/// The length of the first event, through the empty line that ends it, if it
/// ends.
pub open spec fn event_len(bytes: Seq<u8>) -> Option<nat>
    decreases bytes.len(),
    when true via event_len_decreases
{
    if !has_line(bytes) {
        None
    } else if line_len(bytes) == 0 {
        Some(full_line_len(bytes))
    } else {
        match event_len(after_line(bytes)) {
            Some(n) => Some(full_line_len(bytes) + n),
            None => None,
        }
    }
}

#[via_fn]
proof fn event_len_decreases(bytes: Seq<u8>) {
    line_len_bounds(bytes);
}

/// An event is not empty and stands in the bytes.
pub proof fn event_len_bounds(bytes: Seq<u8>)
    ensures
        event_len(bytes) matches Some(n) ==> 1 <= n <= bytes.len(),
    decreases bytes.len(),
{
    line_len_bounds(bytes);
    if has_line(bytes) && line_len(bytes) > 0 {
        event_len_bounds(after_line(bytes));
    }
}

/// How many bytes the complete events at the front take.
pub open spec fn completed_len(bytes: Seq<u8>) -> nat
    decreases bytes.len(),
    when true via completed_len_decreases
{
    match event_len(bytes) {
        Some(n) => n + completed_len(bytes.skip(n as int)),
        None => 0,
    }
}

#[via_fn]
proof fn completed_len_decreases(bytes: Seq<u8>) {
    event_len_bounds(bytes);
}

proof fn completed_len_bounds(bytes: Seq<u8>)
    ensures
        completed_len(bytes) <= bytes.len(),
    decreases bytes.len(),
{
    event_len_bounds(bytes);
    if let Some(n) = event_len(bytes) {
        completed_len_bounds(bytes.skip(n as int));
    }
}

/// The name of the data field.
pub open spec fn data_name() -> Seq<u8> {
    seq![100u8, 97u8, 116u8, 97u8]
}

/// Whether a line is a data field: its name alone, or its name and a colon.
pub open spec fn is_data(line: Seq<u8>) -> bool {
    line == data_name() || (line.len() >= 5 && line.take(5) == data_name().push(58u8))
}

/// The value of a data field: what follows the colon and one space.
pub open spec fn data_value(line: Seq<u8>) -> Seq<u8> {
    if line.len() < 5 {
        Seq::empty()
    } else if line.len() > 5 && line[5] == 32 {
        line.skip(6)
    } else {
        line.skip(5)
    }
}

/// The data of an event from its first line on, behind what was read before:
/// the values of its data fields with line feeds between.
pub open spec fn data_after(bytes: Seq<u8>, read: Option<Seq<u8>>) -> Option<Seq<u8>>
    decreases bytes.len(),
    when true via data_after_decreases
{
    if !has_line(bytes) {
        read
    } else if is_data(first_line(bytes)) {
        let value = data_value(first_line(bytes));
        data_after(
            after_line(bytes),
            Some(
                match read {
                    Some(read) => read.push(10u8) + value,
                    None => value,
                },
            ),
        )
    } else {
        data_after(after_line(bytes), read)
    }
}

#[via_fn]
proof fn data_after_decreases(bytes: Seq<u8>, read: Option<Seq<u8>>) {
    line_len_bounds(bytes);
}

/// The data of an event, if it has any.
pub open spec fn data_of(event: Seq<u8>) -> Option<Seq<u8>> {
    data_after(event, None)
}

/// An event from its first line on with its first data field holding `data`
/// and no other data field; none where one was `written` before.
pub open spec fn replaced_after(bytes: Seq<u8>, data: Seq<u8>, written: bool) -> Seq<u8>
    decreases bytes.len(),
    when true via replaced_after_decreases
{
    if !has_line(bytes) {
        bytes
    } else if is_data(first_line(bytes)) {
        let line = if written {
            Seq::empty()
        } else {
            data_name() + seq![58u8, 32u8] + data + bytes.subrange(
                line_len(bytes) as int,
                full_line_len(bytes) as int,
            )
        };
        line + replaced_after(after_line(bytes), data, true)
    } else {
        bytes.take(full_line_len(bytes) as int) + replaced_after(after_line(bytes), data, written)
    }
}

#[via_fn]
proof fn replaced_after_decreases(bytes: Seq<u8>, data: Seq<u8>, written: bool) {
    line_len_bounds(bytes);
}

/// An event with its data replaced.
pub open spec fn replaced(event: Seq<u8>, data: Seq<u8>) -> Seq<u8> {
    replaced_after(event, data, false)
}

/// Where the first line from `from` on ends, and where the next begins, if the
/// line ends.
fn find_line(bytes: &[u8], from: usize) -> (r: Option<(usize, usize)>)
    requires
        from <= bytes@.len(),
    ensures
        r is Some <==> has_line(bytes@.skip(from as int)),
        r matches Some((end, next)) ==> end == from + line_len(bytes@.skip(from as int)) && next
            == from + full_line_len(bytes@.skip(from as int)) && end < next <= bytes@.len(),
{
    let ghost rest = bytes@.skip(from as int);
    let mut at: usize = from;
    while at < bytes.len()
        invariant
            rest == bytes@.skip(from as int),
            from <= at <= bytes@.len(),
            forall|i: int| 0 <= i < at - from ==> !is_break(#[trigger] rest[i]),
        decreases bytes.len() - at,
    {
        let byte = bytes[at];
        if byte == 10 || byte == 13 {
            proof {
                line_len_is(rest, at - from);
                line_len_bounds(rest);
            }
            if byte == 13 && bytes.len() - at > 1 && bytes[at + 1] == 10 {
                proof {
                    assert(rest[at - from + 1] == bytes@[at + 1]);
                }
                return Some((at, at + 2));
            }
            proof {
                if at + 1 < bytes@.len() {
                    assert(rest[at - from + 1] == bytes@[at + 1]);
                }
            }
            return Some((at, at + 1));
        }
        at += 1;
    }
    proof {
        line_len_is(rest, at - from);
    }
    None
}

/// The length of the first event from `from` on, if it ends.
pub(crate) fn event_len_from(bytes: &[u8], from: usize) -> (r: Option<usize>)
    requires
        from <= bytes@.len(),
    ensures
        match r {
            Some(n) => event_len(bytes@.skip(from as int)) == Some(n as nat) && 1 <= n
                <= bytes@.len() - from,
            None => event_len(bytes@.skip(from as int)) is None,
        },
{
    let ghost rest = bytes@.skip(from as int);
    let mut at: usize = from;
    loop
        invariant
            rest == bytes@.skip(from as int),
            from <= at <= bytes@.len(),
            event_len(rest) == match event_len(bytes@.skip(at as int)) {
                Some(n) => Some((at - from + n) as nat),
                None => None,
            },
        decreases bytes@.len() - at,
    {
        let ghost here = bytes@.skip(at as int);
        match find_line(bytes, at) {
            None => {
                return None;
            },
            Some((end, next)) => {
                if end == at {
                    return Some(next - from);
                }
                proof {
                    assert(after_line(here) =~= bytes@.skip(next as int));
                }
                at = next;
            },
        }
    }
}

/// The length of the first event, through the empty line that ends it, if it
/// ends.
pub fn first_sse_event_len(bytes: &[u8]) -> (r: Option<usize>)
    ensures
        match r {
            Some(n) => event_len(bytes@) == Some(n as nat) && 1 <= n <= bytes@.len(),
            None => event_len(bytes@) is None,
        },
{
    proof {
        assert(bytes@.skip(0) =~= bytes@);
    }
    event_len_from(bytes, 0)
}

/// Return the byte length through the last complete SSE event boundary.
pub fn completed_sse_prefix_len(bytes: &[u8]) -> (r: usize)
    ensures
        r == completed_len(bytes@),
        r <= bytes@.len(),
{
    let total: usize = bytes.len();
    let mut consumed: usize = 0;
    proof {
        assert(bytes@.skip(0) =~= bytes@);
    }
    loop
        invariant
            total == bytes@.len(),
            consumed <= bytes@.len(),
            completed_len(bytes@) == consumed + completed_len(bytes@.skip(consumed as int)),
        decreases bytes@.len() - consumed,
    {
        match event_len_from(bytes, consumed) {
            None => {
                return consumed;
            },
            Some(n) => {
                proof {
                    assert(bytes@.skip(consumed as int).skip(n as int) =~= bytes@.skip(
                        consumed + n,
                    ));
                }
                consumed = consumed + n;
            },
        }
    }
}

/// Whether a part of `bytes` is a data field.
fn is_data_line(bytes: &[u8], from: usize, to: usize) -> (r: bool)
    requires
        from <= to <= bytes@.len(),
    ensures
        r == is_data(bytes@.subrange(from as int, to as int)),
{
    let ghost line = bytes@.subrange(from as int, to as int);
    if to - from < 4 {
        proof {
            assert(line.len() < data_name().len());
        }
        return false;
    }
    let named = bytes[from] == 100 && bytes[from + 1] == 97 && bytes[from + 2] == 116 && bytes[from
        + 3] == 97;
    if to - from == 4 {
        proof {
            if named {
                assert(line =~= data_name());
            } else {
                assert(line[0] == bytes@[from as int]);
                assert(line[1] == bytes@[from + 1]);
                assert(line[2] == bytes@[from + 2]);
                assert(line[3] == bytes@[from + 3]);
            }
        }
        return named;
    }
    let colon = bytes[from + 4] == 58;
    proof {
        let head = line.take(5);
        if named && colon {
            assert(head =~= data_name().push(58u8));
        } else {
            assert(head[0] == bytes@[from as int]);
            assert(head[1] == bytes@[from + 1]);
            assert(head[2] == bytes@[from + 2]);
            assert(head[3] == bytes@[from + 3]);
            assert(head[4] == bytes@[from + 4]);
        }
    }
    named && colon
}

/// Adds a part of `bytes` to `out`.
pub(crate) fn add_part(out: &mut Vec<u8>, bytes: &[u8], from: usize, to: usize)
    requires
        from <= to <= bytes@.len(),
    ensures
        final(out)@ == old(out)@ + bytes@.subrange(from as int, to as int),
{
    let mut i: usize = from;
    let ghost held = out@;
    proof {
        assert(held + bytes@.subrange(from as int, from as int) =~= held);
    }
    while i < to
        invariant
            from <= i <= to <= bytes@.len(),
            out@ == held + bytes@.subrange(from as int, i as int),
        decreases to - i,
    {
        out.push(bytes[i]);
        proof {
            assert(out@ =~= held + bytes@.subrange(from as int, i + 1));
        }
        i += 1;
    }
}

/// The same bytes again.
pub(crate) fn copy_bytes(bytes: &[u8]) -> (r: Vec<u8>)
    ensures
        r@ == bytes@,
{
    let mut r: Vec<u8> = Vec::new();
    r.extend_from_slice(bytes);
    proof {
        assert(r@ =~= bytes@);
    }
    r
}

/// What optional bytes hold.
pub open spec fn bytes_view(bytes: Option<Vec<u8>>) -> Option<Seq<u8>> {
    match bytes {
        Some(bytes) => Some(bytes@),
        None => None,
    }
}

/// The data of an event, if it has any.
pub fn sse_event_data(event: &[u8]) -> (r: Option<Vec<u8>>)
    ensures
        bytes_view(r) == data_of(event@),
{
    let mut data: Vec<u8> = Vec::new();
    let mut found = false;
    let mut start: usize = 0;
    proof {
        assert(event@.skip(0) =~= event@);
    }
    loop
        invariant
            start <= event@.len(),
            !found ==> data@ == Seq::<u8>::empty(),
            data_of(event@) == data_after(
                event@.skip(start as int),
                if found {
                    Some(data@)
                } else {
                    None
                },
            ),
        decreases event@.len() - start,
    {
        let ghost here = event@.skip(start as int);
        match find_line(event, start) {
            None => {
                return if found {
                    Some(data)
                } else {
                    None
                };
            },
            Some((end, next)) => {
                proof {
                    assert(first_line(here) =~= event@.subrange(start as int, end as int));
                    assert(after_line(here) =~= event@.skip(next as int));
                }
                if is_data_line(event, start, end) {
                    let ghost read = if found {
                        Some(data@)
                    } else {
                        None
                    };
                    if found {
                        data.push(10);
                    }
                    let ghost held = data@;
                    let mut from: usize = end;
                    if end - start > 5 && event[start + 5] == 32 {
                        from = start + 6;
                    } else if end - start >= 5 {
                        from = start + 5;
                    }
                    add_part(&mut data, event, from, end);
                    proof {
                        assert(data_value(first_line(here)) =~= event@.subrange(
                            from as int,
                            end as int,
                        ));
                        assert(data@ =~= match read {
                            Some(read) => read.push(10u8) + data_value(first_line(here)),
                            None => data_value(first_line(here)),
                        });
                    }
                    found = true;
                }
                start = next;
            },
        }
    }
}

/// How three rows are grouped does not matter.
pub proof fn regrouped(a: Seq<u8>, b: Seq<u8>, c: Seq<u8>)
    ensures
        a + (b + c) == (a + b) + c,
{
    assert(a + (b + c) =~= (a + b) + c);
}

/// Adds a data field that holds `data`, with the end of a line of `bytes`.
fn add_data_line(out: &mut Vec<u8>, data: &[u8], bytes: &[u8], end: usize, next: usize)
    requires
        end <= next <= bytes@.len(),
    ensures
        final(out)@ == old(out)@ + (data_name() + seq![58u8, 32u8] + data@ + bytes@.subrange(
            end as int,
            next as int,
        )),
{
    let ghost held = out@;
    out.push(100);
    out.push(97);
    out.push(116);
    out.push(97);
    out.push(58);
    out.push(32);
    out.extend_from_slice(data);
    proof {
        assert(out@ =~= held + (data_name() + seq![58u8, 32u8] + data@));
        regrouped(
            held,
            data_name() + seq![58u8, 32u8] + data@,
            bytes@.subrange(end as int, next as int),
        );
    }
    add_part(out, bytes, end, next);
}

/// Replace one event's possibly multi-line data field and preserve all other fields.
pub fn replace_sse_data(raw_event: &[u8], data: &[u8]) -> (r: Vec<u8>)
    ensures
        r@ == replaced(raw_event@, data@),
{
    let mut output: Vec<u8> = Vec::new();
    let mut wrote_data = false;
    let mut start: usize = 0;
    proof {
        assert(raw_event@.skip(0) =~= raw_event@);
        assert(output@ + replaced(raw_event@, data@) =~= replaced(raw_event@, data@));
    }
    loop
        invariant
            start <= raw_event@.len(),
            replaced(raw_event@, data@) == output@ + replaced_after(
                raw_event@.skip(start as int),
                data@,
                wrote_data,
            ),
        decreases raw_event@.len() - start,
    {
        let ghost here = raw_event@.skip(start as int);
        let ghost held = output@;
        match find_line(raw_event, start) {
            None => {
                add_part(&mut output, raw_event, start, raw_event.len());
                proof {
                    assert(here =~= raw_event@.subrange(start as int, raw_event@.len() as int));
                }
                return output;
            },
            Some((end, next)) => {
                let ghost rest = after_line(here);
                let ghost line_end = raw_event@.subrange(end as int, next as int);
                let ghost line = raw_event@.subrange(start as int, next as int);
                proof {
                    assert(first_line(here) =~= raw_event@.subrange(start as int, end as int));
                    assert(rest =~= raw_event@.skip(next as int));
                    assert(here.subrange(line_len(here) as int, full_line_len(here) as int)
                        =~= line_end);
                    assert(here.take(full_line_len(here) as int) =~= line);
                }
                if is_data_line(raw_event, start, end) {
                    if !wrote_data {
                        add_data_line(&mut output, data, raw_event, end, next);
                        proof {
                            regrouped(
                                held,
                                data_name() + seq![58u8, 32u8] + data@ + line_end,
                                replaced_after(rest, data@, true),
                            );
                        }
                    } else {
                        proof {
                            regrouped(held, Seq::empty(), replaced_after(rest, data@, true));
                            assert(held + Seq::<u8>::empty() =~= held);
                        }
                    }
                    wrote_data = true;
                } else {
                    add_part(&mut output, raw_event, start, next);
                    proof {
                        regrouped(held, line, replaced_after(rest, data@, wrote_data));
                    }
                }
                start = next;
            },
        }
    }
}

/// Whether no byte ends a line.
pub open spec fn unbroken(bytes: Seq<u8>) -> bool {
    forall|i: int| 0 <= i < bytes.len() ==> !is_break(#[trigger] bytes[i])
}

/// The three ends that a line can have.
pub open spec fn is_line_end(bytes: Seq<u8>) -> bool {
    bytes == seq![10u8] || bytes == seq![13u8] || bytes == seq![13u8, 10u8]
}

/// The end of the first line.
pub open spec fn first_end(bytes: Seq<u8>) -> Seq<u8> {
    bytes.subrange(line_len(bytes) as int, full_line_len(bytes) as int)
}

/// Bytes with a line are the line, its end, and what follows.
proof fn first_line_parts(bytes: Seq<u8>)
    requires
        has_line(bytes),
    ensures
        unbroken(first_line(bytes)),
        is_line_end(first_end(bytes)),
        bytes.take(full_line_len(bytes) as int) == first_line(bytes) + first_end(bytes),
        bytes == first_line(bytes) + first_end(bytes) + after_line(bytes),
        after_line(bytes).len() < bytes.len(),
        after_line(bytes).len() == bytes.len() - full_line_len(bytes),
{
    line_len_bounds(bytes);
    let at = line_len(bytes) as int;
    let end = first_end(bytes);
    if break_len(bytes, at) == 2 {
        assert(end =~= seq![13u8, 10u8]);
    } else if bytes[at] == 10 {
        assert(end =~= seq![10u8]);
    } else {
        assert(end =~= seq![13u8]);
    }
    assert(bytes.take(full_line_len(bytes) as int) =~= first_line(bytes) + end);
    assert(bytes =~= first_line(bytes) + end + after_line(bytes));
}

/// Whether a line's end runs together with what follows.
pub open spec fn runs_together(end: Seq<u8>, rest: Seq<u8>) -> bool {
    end == seq![13u8] && rest.len() > 0 && rest[0] == 10
}

/// A line, its end, and what follows are read as that line.
proof fn put_together(line: Seq<u8>, end: Seq<u8>, rest: Seq<u8>)
    requires
        unbroken(line),
        is_line_end(end),
    ensures
        has_line(line + end + rest),
        line_len(line + end + rest) == line.len(),
        first_line(line + end + rest) == line,
        !runs_together(end, rest) ==> full_line_len(line + end + rest) == line.len() + end.len()
            && after_line(line + end + rest) == rest && first_end(line + end + rest) == end,
        runs_together(end, rest) ==> full_line_len(line + end + rest) == line.len() + 2
            && after_line(line + end + rest) == rest.skip(1) && first_end(line + end + rest)
            == seq![13u8, 10u8],
{
    let bytes = line + end + rest;
    let at = line.len() as int;
    assert(bytes[at] == end[0]);
    assert(forall|i: int| 0 <= i < at ==> #[trigger] bytes[i] == line[i]);
    line_len_is(bytes, at);
    assert(first_line(bytes) =~= line);
    if end.len() == 2 {
        assert(bytes[at + 1] == end[1]);
    } else if rest.len() > 0 {
        assert(bytes[at + 1] == rest[0]);
    }
    if runs_together(end, rest) {
        assert(after_line(bytes) =~= rest.skip(1));
        assert(first_end(bytes) =~= seq![13u8, 10u8]);
    } else {
        assert(after_line(bytes) =~= rest);
        assert(first_end(bytes) =~= end);
    }
}

/// The data read once a line is.
pub open spec fn data_with(line: Seq<u8>, read: Option<Seq<u8>>) -> Option<Seq<u8>> {
    if is_data(line) {
        Some(
            match read {
                Some(read) => read.push(10u8) + data_value(line),
                None => data_value(line),
            },
        )
    } else {
        read
    }
}

/// The data of a line with what follows is read line by line, even where the
/// line's end runs together with what follows.
proof fn data_after_line(line: Seq<u8>, end: Seq<u8>, rest: Seq<u8>, read: Option<Seq<u8>>)
    requires
        unbroken(line),
        is_line_end(end),
    ensures
        data_after(line + end + rest, read) == data_after(rest, data_with(line, read)),
{
    put_together(line, end, rest);
    if runs_together(end, rest) {
        line_len_is(rest, 0);
        assert(first_line(rest) =~= Seq::empty());
        assert(after_line(rest) =~= rest.skip(1));
    }
}

proof fn data_once_read_stays(bytes: Seq<u8>, read: Seq<u8>)
    ensures
        data_after(bytes, Some(read)) is Some,
    decreases bytes.len(),
{
    if has_line(bytes) {
        first_line_parts(bytes);
        data_once_read_stays(after_line(bytes), data_with(first_line(bytes), Some(read))->0);
        data_once_read_stays(after_line(bytes), read);
    }
}

proof fn replaced_reads_back(bytes: Seq<u8>, data: Seq<u8>, read: Seq<u8>)
    requires
        unbroken(data),
    ensures
        data_after(replaced_after(bytes, data, true), Some(read)) == Some(read),
        data_after(bytes, None) is Some ==> data_after(replaced_after(bytes, data, false), None)
            == Some(data),
        data_after(bytes, None) is None ==> replaced_after(bytes, data, false) == bytes,
    decreases bytes.len(),
{
    if has_line(bytes) {
        first_line_parts(bytes);
        let line = first_line(bytes);
        let end = first_end(bytes);
        let rest = after_line(bytes);
        replaced_reads_back(rest, data, read);
        replaced_reads_back(rest, data, data);
        if is_data(line) {
            let new_line = data_name() + seq![58u8, 32u8] + data;
            assert(unbroken(new_line)) by {
                assert forall|i: int| 0 <= i < new_line.len() implies !is_break(
                    #[trigger] new_line[i],
                ) by {
                    if i >= 6 {
                        assert(new_line[i] == data[i - 6]);
                    }
                }
            }
            assert(new_line.take(5) =~= data_name().push(58u8));
            assert(data_value(new_line) =~= data);
            data_after_line(new_line, end, replaced_after(rest, data, true), None);
            assert(Seq::<u8>::empty() + replaced_after(rest, data, true) =~= replaced_after(
                rest,
                data,
                true,
            ));
            data_once_read_stays(rest, data_value(line));
        } else {
            data_after_line(line, end, replaced_after(rest, data, true), Some(read));
            data_after_line(line, end, replaced_after(rest, data, false), None);
        }
    }
}

/// Data that was put into an event is the data of the event; an event without
/// data is kept as it is.
pub proof fn replaced_data_reads_back(event: Seq<u8>, data: Seq<u8>)
    requires
        unbroken(data),
    ensures
        data_of(event) is Some ==> data_of(replaced(event, data)) == Some(data),
        data_of(event) is None ==> replaced(event, data) == event,
{
    replaced_reads_back(event, data, data);
}

/// Whether the ends of the lines that are left stay apart when data fields are
/// dropped: no lone carriage return comes to stand before a line feed. `cr`
/// says whether a lone carriage return stands before.
pub open spec fn ends_stay_apart(bytes: Seq<u8>, written: bool, cr: bool) -> bool
    decreases bytes.len(),
    when true via ends_stay_apart_decreases
{
    if !has_line(bytes) {
        true
    } else if is_data(first_line(bytes)) && written {
        ends_stay_apart(after_line(bytes), true, cr)
    } else {
        &&& !(cr && bytes[0] == 10)
        &&& ends_stay_apart(
            after_line(bytes),
            written || is_data(first_line(bytes)),
            first_end(bytes) == seq![13u8],
        )
    }
}

#[via_fn]
proof fn ends_stay_apart_decreases(bytes: Seq<u8>, written: bool, cr: bool) {
    line_len_bounds(bytes);
}

proof fn replaced_begins_apart(bytes: Seq<u8>, data: Seq<u8>, written: bool)
    requires
        ends_stay_apart(bytes, written, true),
    ensures
        replaced_after(bytes, data, written).len() > 0 ==> replaced_after(
            bytes,
            data,
            written,
        )[0] != 10,
    decreases bytes.len(),
{
    if has_line(bytes) {
        first_line_parts(bytes);
        let line = first_line(bytes);
        if is_data(line) && written {
            replaced_begins_apart(after_line(bytes), data, true);
            assert(replaced_after(bytes, data, true) =~= replaced_after(
                after_line(bytes),
                data,
                true,
            ));
        } else if is_data(line) {
            assert(replaced_after(bytes, data, false)[0] == 100u8);
        } else {
            assert(replaced_after(bytes, data, written)[0] == bytes[0]);
        }
    } else {
        line_len_bounds(bytes);
    }
}

proof fn replaced_is_an_event(bytes: Seq<u8>, data: Seq<u8>, written: bool, cr: bool)
    requires
        event_len(bytes) == Some(bytes.len()),
        unbroken(data),
        ends_stay_apart(bytes, written, cr),
    ensures
        event_len(replaced_after(bytes, data, written)) == Some(
            replaced_after(bytes, data, written).len(),
        ),
    decreases bytes.len(),
{
    first_line_parts(bytes);
    let line = first_line(bytes);
    let end = first_end(bytes);
    let rest = after_line(bytes);
    if line.len() == 0 {
        assert(rest.len() == 0);
        assert(!has_line(rest));
        assert(replaced_after(rest, data, written) =~= Seq::empty());
        assert(replaced_after(bytes, data, written) =~= bytes);
    } else {
        let now = written || is_data(line);
        let left = replaced_after(rest, data, now);
        assert(event_len(rest) == Some(rest.len()));
        if is_data(line) && written {
            replaced_is_an_event(rest, data, true, cr);
            assert(replaced_after(bytes, data, true) =~= left);
        } else {
            replaced_is_an_event(rest, data, now, end == seq![13u8]);
            if end == seq![13u8] {
                replaced_begins_apart(rest, data, now);
            }
            let new_line = if is_data(line) {
                data_name() + seq![58u8, 32u8] + data
            } else {
                line
            };
            assert(unbroken(new_line)) by {
                assert forall|i: int| 0 <= i < new_line.len() implies !is_break(
                    #[trigger] new_line[i],
                ) by {
                    if is_data(line) && i >= 6 {
                        assert(new_line[i] == data[i - 6]);
                    }
                }
            }
            put_together(new_line, end, left);
            assert(replaced_after(bytes, data, written) =~= new_line + end + left);
        }
    }
}

/// An event is still one event after its data was replaced.
pub proof fn replaced_events_stay_events(event: Seq<u8>, data: Seq<u8>)
    requires
        event_len(event) == Some(event.len()),
        unbroken(data),
        ends_stay_apart(event, false, false),
    ensures
        event_len(replaced(event, data)) == Some(replaced(event, data).len()),
{
    replaced_is_an_event(event, data, false, false);
}

/// The lines that have an end, in order, each with its end.
pub open spec fn lines_of(bytes: Seq<u8>) -> Seq<(Seq<u8>, Seq<u8>)>
    decreases bytes.len(),
    when true via lines_of_decreases
{
    if !has_line(bytes) {
        Seq::empty()
    } else {
        seq![(first_line(bytes), first_end(bytes))] + lines_of(after_line(bytes))
    }
}

#[via_fn]
proof fn lines_of_decreases(bytes: Seq<u8>) {
    line_len_bounds(bytes);
}

/// What follows the last line that has an end.
pub open spec fn open_line(bytes: Seq<u8>) -> Seq<u8>
    decreases bytes.len(),
    when true via open_line_decreases
{
    if !has_line(bytes) {
        bytes
    } else {
        open_line(after_line(bytes))
    }
}

#[via_fn]
proof fn open_line_decreases(bytes: Seq<u8>) {
    line_len_bounds(bytes);
}

/// The lines that are no data fields, in order.
pub open spec fn others_among(lines: Seq<(Seq<u8>, Seq<u8>)>) -> Seq<(Seq<u8>, Seq<u8>)>
    decreases lines.len(),
{
    if lines.len() == 0 {
        Seq::empty()
    } else if is_data(lines[0].0) {
        others_among(lines.skip(1))
    } else {
        seq![lines[0]] + others_among(lines.skip(1))
    }
}

/// The lines of an event that are no data fields, in order, each with its end.
pub open spec fn other_lines(bytes: Seq<u8>) -> Seq<(Seq<u8>, Seq<u8>)> {
    others_among(lines_of(bytes))
}

/// How many lines stand before the first data field.
pub open spec fn data_index(lines: Seq<(Seq<u8>, Seq<u8>)>) -> nat
    decreases lines.len(),
{
    if lines.len() == 0 || is_data(lines[0].0) {
        0
    } else {
        1 + data_index(lines.skip(1))
    }
}

/// A data field that holds `data`.
pub open spec fn data_line(data: Seq<u8>) -> Seq<u8> {
    data_name() + seq![58u8, 32u8] + data
}

/// Lines with the first data field holding `data` and no other data field; none
/// where one was `written` before.
pub open spec fn lines_replaced(
    lines: Seq<(Seq<u8>, Seq<u8>)>,
    data: Seq<u8>,
    written: bool,
) -> Seq<(Seq<u8>, Seq<u8>)>
    decreases lines.len(),
{
    if lines.len() == 0 {
        Seq::empty()
    } else if is_data(lines[0].0) {
        let line = if written {
            Seq::empty()
        } else {
            seq![(data_line(data), lines[0].1)]
        };
        line + lines_replaced(lines.skip(1), data, true)
    } else {
        seq![lines[0]] + lines_replaced(lines.skip(1), data, written)
    }
}

proof fn data_line_is_data(data: Seq<u8>)
    requires
        unbroken(data),
    ensures
        is_data(data_line(data)),
        unbroken(data_line(data)),
{
    let line = data_line(data);
    assert(line.take(5) =~= data_name().push(58u8));
    assert forall|i: int| 0 <= i < line.len() implies !is_break(#[trigger] line[i]) by {
        if i >= 6 {
            assert(line[i] == data[i - 6]);
        }
    }
}

/// A line, its end and what follows are these lines, where they stay apart.
proof fn lines_put_together(line: Seq<u8>, end: Seq<u8>, rest: Seq<u8>)
    requires
        unbroken(line),
        is_line_end(end),
        !runs_together(end, rest),
    ensures
        lines_of(line + end + rest) == seq![(line, end)] + lines_of(rest),
        open_line(line + end + rest) == open_line(rest),
{
    put_together(line, end, rest);
}

/// Replacing data goes line by line, where the ends of the lines stay apart.
proof fn replaced_line_by_line(bytes: Seq<u8>, data: Seq<u8>, written: bool, cr: bool)
    requires
        unbroken(data),
        ends_stay_apart(bytes, written, cr),
    ensures
        lines_of(replaced_after(bytes, data, written)) == lines_replaced(
            lines_of(bytes),
            data,
            written,
        ),
        open_line(replaced_after(bytes, data, written)) == open_line(bytes),
    decreases bytes.len(),
{
    if has_line(bytes) {
        first_line_parts(bytes);
        let line = first_line(bytes);
        let end = first_end(bytes);
        let rest = after_line(bytes);
        let lines = lines_of(bytes);
        assert(lines[0] == (line, end));
        assert(lines.skip(1) =~= lines_of(rest));
        let now = written || is_data(line);
        let left = replaced_after(rest, data, now);
        if is_data(line) && written {
            replaced_line_by_line(rest, data, true, cr);
            assert(replaced_after(bytes, data, true) =~= left);
            assert(lines_replaced(lines, data, true) =~= lines_replaced(
                lines_of(rest),
                data,
                true,
            ));
        } else {
            replaced_line_by_line(rest, data, now, end == seq![13u8]);
            if end == seq![13u8] {
                replaced_begins_apart(rest, data, now);
            }
            data_line_is_data(data);
            let new_line = if is_data(line) {
                data_line(data)
            } else {
                line
            };
            lines_put_together(new_line, end, left);
            assert(replaced_after(bytes, data, written) =~= new_line + end + left);
        }
    }
}

proof fn replacing_keeps_others(lines: Seq<(Seq<u8>, Seq<u8>)>, data: Seq<u8>, written: bool)
    requires
        unbroken(data),
    ensures
        others_among(lines_replaced(lines, data, written)) == others_among(lines),
    decreases lines.len(),
{
    if lines.len() > 0 {
        let rest = lines.skip(1);
        let now = written || is_data(lines[0].0);
        let left = lines_replaced(rest, data, now);
        replacing_keeps_others(rest, data, now);
        let all = lines_replaced(lines, data, written);
        if is_data(lines[0].0) && written {
            assert(all =~= left);
        } else {
            data_line_is_data(data);
            assert(all.skip(1) =~= left);
        }
    }
}

proof fn no_data_is_left(lines: Seq<(Seq<u8>, Seq<u8>)>, data: Seq<u8>)
    ensures
        forall|i: int|
            0 <= i < lines_replaced(lines, data, true).len() ==> !is_data(
                (#[trigger] lines_replaced(lines, data, true)[i]).0,
            ),
    decreases lines.len(),
{
    if lines.len() > 0 {
        let rest = lines.skip(1);
        let left = lines_replaced(rest, data, true);
        let all = lines_replaced(lines, data, true);
        no_data_is_left(rest, data);
        assert forall|i: int| 0 <= i < all.len() implies !is_data((#[trigger] all[i]).0) by {
            if is_data(lines[0].0) {
                assert(all =~= left);
                assert(!is_data(left[i].0));
            } else if i > 0 {
                assert(all[i] == left[i - 1]);
            }
        }
    }
}

proof fn first_data_is_replaced(lines: Seq<(Seq<u8>, Seq<u8>)>, data: Seq<u8>)
    requires
        unbroken(data),
    ensures
        data_index(lines) <= lines.len(),
        data_index(lines) == lines.len() ==> lines_replaced(lines, data, false) == lines,
        data_index(lines) < lines.len() ==> {
            let all = lines_replaced(lines, data, false);
            let at = data_index(lines) as int;
            &&& at < all.len()
            &&& all.take(at) == lines.take(at)
            &&& is_data(lines[at].0)
            &&& all[at] == (data_line(data), lines[at].1)
            &&& forall|i: int|
                0 <= i < all.len() && i != at ==> !is_data((#[trigger] all[i]).0)
        },
    decreases lines.len(),
{
    if lines.len() > 0 {
        let rest = lines.skip(1);
        let all = lines_replaced(lines, data, false);
        if is_data(lines[0].0) {
            no_data_is_left(rest, data);
            assert(all.take(0) =~= lines.take(0));
            assert forall|i: int| 0 < i < all.len() implies !is_data((#[trigger] all[i]).0) by {
                assert(all[i] == lines_replaced(rest, data, true)[i - 1]);
            }
        } else {
            first_data_is_replaced(rest, data);
            let left = lines_replaced(rest, data, false);
            let at = data_index(lines) as int;
            if data_index(lines) == lines.len() {
                assert(all =~= lines);
            } else {
                assert(all.take(at) =~= lines.take(at)) by {
                    assert forall|i: int| 0 <= i < at implies all[i] == lines[i] by {
                        if i > 0 {
                            assert(left.take(at - 1)[i - 1] == rest.take(at - 1)[i - 1]);
                        }
                    }
                }
                assert(all[at] == left[at - 1]);
                assert forall|i: int| 0 <= i < all.len() && i != at implies !is_data(
                    (#[trigger] all[i]).0,
                ) by {
                    if i > 0 {
                        assert(all[i] == left[i - 1]);
                    }
                }
            }
        }
    } else {
        assert(lines_replaced(lines, data, false) =~= lines);
    }
}

/// Replacing the data of an event keeps every line that is no data field, byte
/// for byte, with its end and in order, and what follows the last line.
pub proof fn replacing_keeps_other_lines(event: Seq<u8>, data: Seq<u8>)
    requires
        unbroken(data),
        ends_stay_apart(event, false, false),
    ensures
        other_lines(replaced(event, data)) == other_lines(event),
        open_line(replaced(event, data)) == open_line(event),
{
    replaced_line_by_line(event, data, false, false);
    replacing_keeps_others(lines_of(event), data, false);
}

/// An event whose data was replaced has one data field, with the new data and
/// the end of the line in whose place it stands: the first data field that the
/// event had. An event without data fields is kept as it is.
pub proof fn one_data_field_is_left(event: Seq<u8>, data: Seq<u8>)
    requires
        unbroken(data),
        ends_stay_apart(event, false, false),
    ensures
        data_index(lines_of(event)) == lines_of(event).len() ==> replaced(event, data) == event,
        data_index(lines_of(event)) < lines_of(event).len() ==> {
            let before = lines_of(event);
            let after = lines_of(replaced(event, data));
            let at = data_index(before) as int;
            &&& at < after.len()
            &&& after.take(at) == before.take(at)
            &&& is_data(before[at].0)
            &&& after[at] == (data_line(data), before[at].1)
            &&& forall|i: int|
                0 <= i < after.len() && i != at ==> !is_data((#[trigger] after[i]).0)
        },
{
    replaced_line_by_line(event, data, false, false);
    first_data_is_replaced(lines_of(event), data);
    if data_index(lines_of(event)) == lines_of(event).len() {
        kept_without_data(event, data, false);
    }
}

proof fn kept_without_data(bytes: Seq<u8>, data: Seq<u8>, written: bool)
    requires
        data_index(lines_of(bytes)) == lines_of(bytes).len(),
    ensures
        replaced_after(bytes, data, written) == bytes,
    decreases bytes.len(),
{
    if has_line(bytes) {
        first_line_parts(bytes);
        let lines = lines_of(bytes);
        assert(lines[0] == (first_line(bytes), first_end(bytes)));
        assert(lines.skip(1) =~= lines_of(after_line(bytes)));
        kept_without_data(after_line(bytes), data, written);
        assert(replaced_after(bytes, data, written) =~= bytes);
    }
}

proof fn no_index_without_data(lines: Seq<(Seq<u8>, Seq<u8>)>)
    requires
        forall|i: int| 0 <= i < lines.len() ==> !is_data((#[trigger] lines[i]).0),
    ensures
        data_index(lines) == lines.len(),
    decreases lines.len(),
{
    if lines.len() > 0 {
        assert forall|i: int| 0 <= i < lines.skip(1).len() implies !is_data(
            (#[trigger] lines.skip(1)[i]).0,
        ) by {
            assert(lines.skip(1)[i] == lines[i + 1]);
        }
        no_index_without_data(lines.skip(1));
    }
}

proof fn replaced_twice(bytes: Seq<u8>, data: Seq<u8>, cr: bool)
    requires
        unbroken(data),
        ends_stay_apart(bytes, false, cr),
    ensures
        replaced_after(replaced_after(bytes, data, false), data, false) == replaced_after(
            bytes,
            data,
            false,
        ),
    decreases bytes.len(),
{
    if has_line(bytes) {
        first_line_parts(bytes);
        let line = first_line(bytes);
        let end = first_end(bytes);
        let rest = after_line(bytes);
        let now = is_data(line);
        let left = replaced_after(rest, data, now);
        if end == seq![13u8] {
            replaced_begins_apart(rest, data, now);
        }
        data_line_is_data(data);
        let new_line = if is_data(line) {
            data_line(data)
        } else {
            line
        };
        put_together(new_line, end, left);
        let once = replaced_after(bytes, data, false);
        assert(once =~= new_line + end + left);
        if is_data(line) {
            replaced_line_by_line(rest, data, true, end == seq![13u8]);
            no_data_is_left(lines_of(rest), data);
            no_index_without_data(lines_of(left));
            kept_without_data(left, data, true);
        } else {
            replaced_twice(rest, data, end == seq![13u8]);
            assert(once.take(full_line_len(once) as int) =~= line + end);
        }
        assert(replaced_after(once, data, false) =~= once);
    }
}

/// Replacing the data of an event a second time changes nothing.
pub proof fn replacing_is_idempotent(event: Seq<u8>, data: Seq<u8>)
    requires
        unbroken(data),
        ends_stay_apart(event, false, false),
    ensures
        replaced(replaced(event, data), data) == replaced(event, data),
{
    replaced_twice(event, data, false);
}

/// Where no lone carriage return ends a line, the ends of the lines stay
/// apart.
pub proof fn paired_returns_stay_apart(bytes: Seq<u8>, written: bool)
    requires
        forall|i: int|
            0 <= i < bytes.len() && #[trigger] bytes[i] == 13 ==> i + 1 < bytes.len()
                && bytes[i + 1] == 10,
    ensures
        ends_stay_apart(bytes, written, false),
    decreases bytes.len(),
{
    if has_line(bytes) {
        first_line_parts(bytes);
        let rest = after_line(bytes);
        let at = line_len(bytes) as int;
        assert(bytes[at] == 13 ==> bytes[at + 1] == 10);
        assert(first_end(bytes)[0] == bytes[at]);
        assert(first_end(bytes) != seq![13u8]) by {
            if bytes[at] == 13 {
                assert(first_end(bytes).len() == 2);
            }
        }
        assert forall|i: int| 0 <= i < rest.len() && #[trigger] rest[i] == 13 implies i + 1
            < rest.len() && rest[i + 1] == 10 by {
            assert(bytes[i + full_line_len(bytes)] == 13);
            assert(bytes[i + full_line_len(bytes) + 1] == rest[i + 1]);
        }
        paired_returns_stay_apart(rest, true);
        paired_returns_stay_apart(rest, written);
    }
}

/// Whether an event that ends `a` goes on with a line feed at the front of
/// `b`.
pub open spec fn split_end(a: Seq<u8>, b: Seq<u8>) -> bool {
    a.len() > 0 && a.last() == 13 && b.len() > 0 && b[0] == 10
}

/// What follows a line does not change the line, but for a line feed behind a
/// carriage return.
proof fn line_with_more(a: Seq<u8>, b: Seq<u8>)
    requires
        has_line(a),
    ensures
        has_line(a + b),
        line_len(a + b) == line_len(a),
        first_line(a + b) == first_line(a),
        !(full_line_len(a) == a.len() && split_end(a, b)) ==> full_line_len(a + b)
            == full_line_len(a) && after_line(a + b) == after_line(a) + b && first_end(a + b)
            == first_end(a),
        full_line_len(a) == a.len() && split_end(a, b) ==> full_line_len(a + b)
            == full_line_len(a) + 1 && after_line(a + b) == b.skip(1) && first_end(a + b)
            == first_end(a).push(10u8),
{
    first_line_parts(a);
    let line = first_line(a);
    let end = first_end(a);
    let rest = after_line(a) + b;
    put_together(line, end, rest);
    assert(a + b =~= line + end + rest);
    if full_line_len(a) == a.len() {
        assert(after_line(a) + b =~= b);
        assert(end.last() == a.last());
        if runs_together(end, b) {
            assert(end.push(10u8) =~= seq![13u8, 10u8]);
        }
    } else {
        assert(rest[0] == after_line(a)[0]);
        line_len_bounds(a);
        assert(after_line(a)[0] == a[full_line_len(a) as int]);
    }
}

/// What follows an event does not change the event, but for a line feed behind
/// a carriage return.
pub proof fn event_with_more(a: Seq<u8>, b: Seq<u8>)
    requires
        event_len(a) is Some,
    ensures
        !(event_len(a) == Some(a.len()) && split_end(a, b)) ==> event_len(a + b) == event_len(a),
        event_len(a) == Some(a.len()) && split_end(a, b) ==> event_len(a + b) == Some(a.len() + 1),
    decreases a.len(),
{
    event_len_bounds(a);
    first_line_parts(a);
    line_with_more(a, b);
    if line_len(a) > 0 {
        let rest = after_line(a);
        event_len_bounds(rest);
        event_with_more(rest, b);
        assert(rest.last() == a.last());
    }
}

/// An event is one in any part that holds it.
pub proof fn event_in_part(a: Seq<u8>, upto: int)
    requires
        event_len(a) matches Some(n) && n <= upto <= a.len(),
    ensures
        event_len(a.take(upto)) == event_len(a),
    decreases a.len(),
{
    event_len_bounds(a);
    first_line_parts(a);
    let part = a.take(upto);
    let n = event_len(a)->0;
    let full = full_line_len(a) as int;
    if line_len(a) > 0 {
        event_len_bounds(after_line(a));
    }
    assert(full <= n);
    let left = after_line(a).take(upto - full);
    assert(part =~= first_line(a) + first_end(a) + left);
    put_together(first_line(a), first_end(a), left);
    if runs_together(first_end(a), left) {
        assert(a[full - 1] == first_end(a).last());
        assert(a[full] == left[0]);
        assert(false);
    }
    if line_len(a) > 0 {
        event_in_part(after_line(a), upto - full);
    }
}

/// What is left behind the complete events holds no complete event.
pub proof fn nothing_complete_is_left(bytes: Seq<u8>)
    ensures
        completed_len(bytes) <= bytes.len(),
        event_len(bytes.skip(completed_len(bytes) as int)) is None,
    decreases bytes.len(),
{
    event_len_bounds(bytes);
    if let Some(n) = event_len(bytes) {
        let rest = bytes.skip(n as int);
        nothing_complete_is_left(rest);
        assert(bytes.skip(completed_len(bytes) as int) =~= rest.skip(completed_len(rest) as int));
    } else {
        assert(bytes.skip(0) =~= bytes);
    }
}

/// A line feed behind a carriage return that ends an event changes nothing of
/// its data, and stays behind it when the data is replaced.
pub proof fn split_end_is_kept(
    event: Seq<u8>,
    data: Seq<u8>,
    read: Option<Seq<u8>>,
    written: bool,
)
    requires
        event_len(event) == Some(event.len()),
        event.last() == 13,
    ensures
        data_after(event.push(10u8), read) == data_after(event, read),
        replaced_after(event.push(10u8), data, written) == replaced_after(
            event,
            data,
            written,
        ).push(10u8),
    decreases event.len(),
{
    let more = event.push(10u8);
    assert(more =~= event + seq![10u8]);
    event_len_bounds(event);
    first_line_parts(event);
    line_with_more(event, seq![10u8]);
    first_line_parts(more);
    let line = first_line(event);
    let end = first_end(event);
    let rest = after_line(event);
    if line.len() == 0 {
        assert(rest.len() == 0);
        assert(after_line(more) =~= Seq::empty());
        assert(!has_line(rest));
        assert(replaced_after(rest, data, written) =~= Seq::empty());
        assert(replaced_after(event, data, written) =~= event);
        assert(replaced_after(more, data, written) =~= more);
    } else {
        assert(event_len(rest) == Some(rest.len()));
        event_len_bounds(rest);
        assert(rest.last() == event.last());
        assert(after_line(more) =~= rest.push(10u8));
        split_end_is_kept(rest, data, data_with(line, read), written);
        split_end_is_kept(rest, data, read, true);
        assert(replaced_after(more, data, written) =~= replaced_after(event, data, written).push(
            10u8,
        )) by {
            let left = replaced_after(rest, data, true);
            if is_data(line) {
                if written {
                    assert(Seq::<u8>::empty() + left.push(10u8) =~= (Seq::<u8>::empty()
                        + left).push(10u8));
                } else {
                    let new_line = data_name() + seq![58u8, 32u8] + data + end;
                    assert(new_line + left.push(10u8) =~= (new_line + left).push(10u8));
                }
            } else {
                let left = replaced_after(rest, data, written);
                assert(more.take(full_line_len(more) as int) =~= event.take(
                    full_line_len(event) as int,
                ));
                let head = event.take(full_line_len(event) as int);
                assert(head + left.push(10u8) =~= (head + left).push(10u8));
            }
        }
    }
}

/// An empty line ends an event, however lines end: with a line feed, a carriage
/// return, or both.
pub proof fn empty_lines_end_events(line: Seq<u8>, end: Seq<u8>, rest: Seq<u8>)
    requires
        line.len() > 0,
        forall|i: int| 0 <= i < line.len() ==> #[trigger] line[i] != 10 && line[i] != 13,
        end == seq![10u8] || end == seq![13u8] || end == seq![13u8, 10u8],
        !(end == seq![13u8] && rest.len() > 0 && rest[0] == 10),
    ensures
        event_len(line + end + (end + rest)) == Some(line.len() + end.len() + end.len()),
        event_len(end + rest) == Some(end.len()),
        event_len(line + end) is None,
        event_len(line) is None,
{
    let empty = Seq::<u8>::empty();
    assert(end + rest =~= empty + end + rest);
    put_together(empty, end, rest);
    put_together(line, end, end + rest);
    assert(line + end =~= line + end + empty);
    put_together(line, end, empty);
    assert(!has_line(empty));
    assert(event_len(empty) is None);
    line_len_is(line, line.len() as int);
}

/// The data of an event is what follows `data:` and one space; a second data
/// field adds a line. Any other field adds nothing.
pub proof fn data_fields_make_the_data(
    value: Seq<u8>,
    more: Seq<u8>,
    other: Seq<u8>,
    end: Seq<u8>,
)
    requires
        unbroken(value),
        unbroken(more),
        unbroken(other),
        other.len() > 0 && other[0] != 100,
        end == seq![10u8] || end == seq![13u8] || end == seq![13u8, 10u8],
    ensures
        ({
            let name = seq![100u8, 97u8, 116u8, 97u8, 58u8, 32u8];
            let one = name + value + end;
            let two = name + more + end;
            &&& data_of(one) == Some(value)
            &&& data_of(one + two) == Some(value + seq![10u8] + more)
            &&& data_of(other + end) is None
            &&& data_of(other + end + one) == Some(value)
        }),
{
    let name = seq![100u8, 97u8, 116u8, 97u8, 58u8, 32u8];
    let empty = Seq::<u8>::empty();
    data_line_is_data(value);
    data_line_is_data(more);
    assert(name =~= data_name() + seq![58u8, 32u8]);
    assert(data_value(data_line(value)) =~= value);
    assert(data_value(data_line(more)) =~= more);
    let one = name + value + end;
    let two = name + more + end;
    assert(!has_line(empty));
    assert(one =~= data_line(value) + end + empty);
    assert(two =~= data_line(more) + end + empty);
    data_after_line(data_line(value), end, empty, None);
    data_after_line(data_line(value), end, two, None);
    assert(one + two =~= data_line(value) + end + two);
    data_after_line(data_line(more), end, empty, Some(value));
    assert(value.push(10u8) + more =~= value + seq![10u8] + more);
    assert(!is_data(other)) by {
        if other.len() >= 5 {
            assert(other.take(5)[0] == other[0]);
            assert(data_name().push(58u8)[0] == 100);
        }
        assert(data_name()[0] == 100);
    }
    assert(other + end =~= other + end + empty);
    data_after_line(other, end, empty, None);
    data_after_line(other, end, one, None);
}

/// The space behind the colon of a data field may be left out, and so may the
/// colon, where there is no value.
pub proof fn data_fields_need_no_space(value: Seq<u8>, end: Seq<u8>)
    requires
        unbroken(value),
        value.len() > 0 ==> value[0] != 32,
        end == seq![10u8] || end == seq![13u8] || end == seq![13u8, 10u8],
    ensures
        data_of(seq![100u8, 97u8, 116u8, 97u8, 58u8] + value + end) == Some(value),
        data_of(seq![100u8, 97u8, 116u8, 97u8] + end) == Some(Seq::<u8>::empty()),
{
    let empty = Seq::<u8>::empty();
    let line = seq![100u8, 97u8, 116u8, 97u8, 58u8] + value;
    assert(!has_line(empty));
    assert(line.take(5) =~= data_name().push(58u8));
    assert(unbroken(line)) by {
        assert forall|i: int| 0 <= i < line.len() implies !is_break(#[trigger] line[i]) by {
            if i >= 5 {
                assert(line[i] == value[i - 5]);
            }
        }
    }
    assert(data_value(line) =~= value) by {
        if value.len() > 0 {
            assert(line[5] == value[0]);
        }
    }
    assert(line + end =~= line + end + empty);
    data_after_line(line, end, empty, None);
    let name = seq![100u8, 97u8, 116u8, 97u8];
    assert(name =~= data_name());
    assert(name + end =~= name + end + empty);
    data_after_line(name, end, empty, None);
}

} // verus!
