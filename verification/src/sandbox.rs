//! The file that an invocation's source text is written to: its name inside
//! the sandbox and its contents, padded so that line numbers agree with the
//! enclosing program.

use vstd::prelude::*;
use vstd::string::{StrSliceExecFns, StringExecFns, StringSliceAdditionalSpecFns};

verus! {

/// The byte that ends a line.
pub const NEWLINE: u8 = 10;

/// The index behind the last `/` of `path`, or 0 where it holds none.
pub open spec fn component_start(path: Seq<char>) -> int
    decreases path.len(),
{
    if path.len() == 0 {
        0
    } else if path.last() == '/' {
        path.len() as int
    } else {
        component_start(path.drop_last())
    }
}

/// The final component of `path`: what follows its last `/`, or all of it
/// where it holds none.
pub open spec fn final_component(path: Seq<char>) -> Seq<char> {
    path.subrange(component_start(path), path.len() as int)
}

proof fn lemma_component_start(path: Seq<char>)
    ensures
        0 <= component_start(path) <= path.len(),
        forall|j: int| component_start(path) <= j < path.len() ==> path[j] != '/',
        component_start(path) > 0 ==> path[component_start(path) - 1] == '/',
    decreases path.len(),
{
    if path.len() > 0 && path.last() != '/' {
        let init = path.drop_last();
        lemma_component_start(init);
        assert forall|j: int| component_start(path) <= j < path.len() implies path[j] != '/' by {
            if j < init.len() {
                assert(init[j] == path[j]);
            }
        }
        if component_start(path) > 0 {
            assert(init[component_start(path) - 1] == path[component_start(path) - 1]);
        }
    }
}

/// The final component holds no `/`, so a file of that name lies directly
/// in the sandbox. It is the end of the path, and what stands before it is
/// nothing or ends in `/`.
pub proof fn lemma_final_component(path: Seq<char>)
    ensures
        forall|j: int|
            0 <= j < final_component(path).len() ==> #[trigger] final_component(path)[j] != '/',
        final_component(path).len() <= path.len(),
        path == path.take(path.len() - final_component(path).len()) + final_component(path),
        final_component(path).len() < path.len() ==> path[path.len() - final_component(
            path,
        ).len() - 1] == '/',
{
    lemma_component_start(path);
    assert(path =~= path.take(path.len() - final_component(path).len()) + final_component(path));
}

/// The name of the materialized file: the final component of the name of the
/// file that holds the invocation. The directories of that path are left
/// out, so that the file lies directly in the sandbox.
pub fn code_file_name(path: &str) -> (r: String)
    ensures
        r@ == final_component(path@),
{
    let n = path.unicode_len();
    let mut start: usize = 0;
    let mut i: usize = 0;
    while i < n
        invariant
            n == path@.len(),
            i <= n,
            start <= i,
            start == component_start(path@.take(i as int)),
        decreases n - i,
    {
        proof {
            assert(path@.take(i + 1).drop_last() =~= path@.take(i as int));
        }
        if path.get_char(i) == '/' {
            start = i + 1;
        }
        i = i + 1;
    }
    assert(path@.take(n as int) =~= path@);
    String::from_str(path.substring_char(start, n))
}

/// The contents of the materialized file: one line break for each line
/// before `first_line`, then the source text as it is.
pub open spec fn materialized_bytes(first_line: u64, code: Seq<u8>) -> Seq<u8> {
    Seq::new((first_line - 1) as nat, |i: int| NEWLINE) + code
}

/// Builds the contents of the materialized file for source text that starts
/// on line `first_line` of the enclosing file, lines counted from 1.
pub fn materialize(first_line: u64, code: &str) -> (r: Vec<u8>)
    requires
        first_line >= 1,
    ensures
        r@ == materialized_bytes(first_line, code.spec_bytes()),
{
    let mut r: Vec<u8> = Vec::new();
    let mut line: u64 = 1;
    while line < first_line
        invariant
            1 <= line <= first_line,
            r@ == Seq::new((line - 1) as nat, |i: int| NEWLINE),
        decreases first_line - line,
    {
        r.push(NEWLINE);
        line = line + 1;
        assert(r@ =~= Seq::new((line - 1) as nat, |i: int| NEWLINE));
    }
    let bytes = code.as_bytes();
    let ghost padding = r@;
    let mut i: usize = 0;
    while i < bytes.len()
        invariant
            i <= bytes@.len(),
            r@ == padding + bytes@.take(i as int),
        decreases bytes@.len() - i,
    {
        r.push(bytes[i]);
        assert(r@ =~= padding + bytes@.take(i + 1));
        i = i + 1;
    }
    assert(bytes@.take(i as int) =~= bytes@);
    r
}

/// The number of line breaks among the first `pos` bytes.
pub open spec fn newlines_before(bytes: Seq<u8>, pos: int) -> nat
    decreases pos,
{
    if pos <= 0 {
        0
    } else {
        newlines_before(bytes, pos - 1) + if bytes[pos - 1] == NEWLINE {
            1nat
        } else {
            0nat
        }
    }
}

/// The number of the line that the byte at `pos` stands on, counted from 1.
pub open spec fn line_number(bytes: Seq<u8>, pos: int) -> nat {
    newlines_before(bytes, pos) + 1
}

proof fn lemma_padding_lines(bytes: Seq<u8>, pos: int)
    requires
        0 <= pos <= bytes.len(),
        forall|i: int| 0 <= i < pos ==> bytes[i] == NEWLINE,
    ensures
        newlines_before(bytes, pos) == pos,
    decreases pos,
{
    if pos > 0 {
        lemma_padding_lines(bytes, pos - 1);
    }
}

/// In the materialized file the source text starts on line `first_line`,
/// after line breaks only, and follows unchanged to the file's end. Where the
/// text does not itself begin with a line break, the file's first byte that
/// is no line break therefore stands on line `first_line`.
pub proof fn lemma_materialized_line(first_line: u64, code: Seq<u8>)
    requires
        first_line >= 1,
    ensures
        materialized_bytes(first_line, code).len() == first_line - 1 + code.len(),
        forall|i: int|
            0 <= i < first_line - 1 ==> materialized_bytes(first_line, code)[i] == NEWLINE,
        materialized_bytes(first_line, code).subrange(
            first_line - 1,
            first_line - 1 + code.len(),
        ) == code,
        line_number(materialized_bytes(first_line, code), first_line - 1) == first_line,
        code.len() > 0 && code[0] != NEWLINE ==> materialized_bytes(first_line, code)[first_line
            - 1] != NEWLINE,
{
    let m = materialized_bytes(first_line, code);
    assert(m.subrange(first_line - 1, first_line - 1 + code.len()) =~= code);
    lemma_padding_lines(m, first_line - 1);
}

} // verus!
