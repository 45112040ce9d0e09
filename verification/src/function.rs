//! The static function record: header bytes, code, constant pool, nested
//! prototypes and debug tables, immutable once decoded.  Before execution
//! every prototype receives a dense identifier by pre-order traversal;
//! the identifier indexes the table of captured upvalues.

use vstd::prelude::*;

use vstd::utf8::encode_utf8;

use crate::constant::{constant_text, Constant, ConstantModel};
use crate::instruction::{instruction_text, Instruction};
use crate::local_variable::{local_text, LocalVariable};
use crate::text::{dec_spec, push_bytes, push_dec, push_slice};

verus! {

/// `n` tab characters.
pub open spec fn tab_seq(n: nat) -> Seq<u8>
    decreases n,
{
    if n == 0 {
        Seq::empty()
    } else {
        tab_seq((n - 1) as nat).push(9u8)
    }
}

#[derive(Debug)]
pub struct Function {
    pub name: Vec<u8>,
    pub first_line: u64,
    pub last_line: u64,
    pub up_values: u8,
    pub args: u8,
    pub vargs: u8,
    pub stack: u8,
    pub instr_list: Vec<Instruction>,
    pub const_list: Vec<Constant>,
    pub func_list: Vec<Function>,
    pub lines_list: Vec<u64>,
    pub local_list: Vec<LocalVariable>,
    pub upvalues_list: Vec<Vec<u8>>,
    /// Dense pre-order index of this prototype, the key of its upvalue
    /// slots; zero until assigned.
    pub identifier: usize,
}

/// How many prototypes the tree rooted here holds, this one included.
pub open spec fn proto_count(f: Function) -> nat
    decreases f,
{
    1 + proto_count_list(f.func_list@)
}

/// How many prototypes a forest holds.
pub open spec fn proto_count_list(s: Seq<Function>) -> nat
    decreases s,
{
    if s.len() == 0 {
        0
    } else {
        proto_count(s[0]) + proto_count_list(s.subrange(1, s.len() as int))
    }
}

/// The identifiers of the tree rooted at `f` are exactly
/// `base .. base + proto_count(f)`, assigned in pre-order.
pub open spec fn ids_from(f: Function, base: int) -> bool
    decreases f,
{
    &&& f.identifier == base
    &&& ids_from_list(f.func_list@, base + 1)
}

/// Pre-order identifier assignment over a forest starting at `base`.
pub open spec fn ids_from_list(s: Seq<Function>, base: int) -> bool
    decreases s,
{
    if s.len() == 0 {
        true
    } else {
        &&& ids_from(s[0], base)
        &&& ids_from_list(s.subrange(1, s.len() as int), base + proto_count(s[0]))
    }
}

/// Two prototypes that agree on everything but their identifiers.
pub open spec fn same_but_ids(f: Function, g: Function) -> bool
    decreases f,
{
    &&& f.name@ == g.name@
    &&& f.first_line == g.first_line
    &&& f.last_line == g.last_line
    &&& f.up_values == g.up_values
    &&& f.args == g.args
    &&& f.vargs == g.vargs
    &&& f.stack == g.stack
    &&& f.instr_list@ == g.instr_list@
    &&& f.const_list.deep_view() == g.const_list.deep_view()
    &&& f.lines_list@ == g.lines_list@
    &&& f.local_list.deep_view() == g.local_list.deep_view()
    &&& f.upvalues_list.deep_view() == g.upvalues_list.deep_view()
    &&& f.func_list@.len() == g.func_list@.len()
    &&& forall|i: int|
        0 <= i < f.func_list@.len() ==> same_but_ids(
            #[trigger] f.func_list@[i],
            g.func_list@[i],
        )
}

/// `n` tab characters, as bytes.
fn make_tabs(n: usize) -> (r: Vec<u8>)
    ensures
        r@ == tab_seq(n as nat),
{
    let mut out: Vec<u8> = Vec::new();
    let mut i: usize = 0;
    while i < n
        invariant
            i <= n,
            out@ == tab_seq(i as nat),
        decreases n - i,
    {
        out.push(9u8);
        i = i + 1;
    }
    out
}

/// Appends the indented display lines of a code list.
fn push_instr_lines(out: &mut Vec<u8>, code: &Vec<Instruction>, ind: &Vec<u8>)
    ensures
        final(out)@ == old(out)@ + instr_lines(code@, ind@),
{
    let n = code.len();
    let mut i: usize = 0;
    while i < n
        invariant
            i <= n,
            n == code@.len(),
            out@ == old(out)@ + instr_lines(code@.take(i as int), ind@),
        decreases n - i,
    {
        push_bytes(out, ind);
        let line = code[i].text();
        push_bytes(out, &line);
        out.push(10u8);
        proof {
            assert(code@.take(i + 1).drop_last() =~= code@.take(i as int));
            assert(code@.take(i + 1).last() == code@[i as int]);
            assert(out@ =~= old(out)@ + instr_lines(code@.take(i + 1), ind@));
        }
        i = i + 1;
    }
    proof {
        assert(code@.take(n as int) =~= code@);
    }
}

/// Appends the indented display lines of a constant pool.
fn push_const_lines(out: &mut Vec<u8>, pool: &Vec<Constant>, ind: &Vec<u8>)
    ensures
        final(out)@ == old(out)@ + const_lines(pool.deep_view(), ind@),
{
    let n = pool.len();
    let mut i: usize = 0;
    while i < n
        invariant
            i <= n,
            n == pool@.len(),
            out@ == old(out)@ + const_lines(pool.deep_view().take(i as int), ind@),
        decreases n - i,
    {
        push_bytes(out, ind);
        let line = pool[i].text();
        push_bytes(out, &line);
        out.push(10u8);
        proof {
            assert(pool.deep_view().take(i + 1).drop_last() =~= pool.deep_view().take(i as int));
            assert(pool.deep_view().take(i + 1).last() == pool.deep_view()[i as int]);
            assert(out@ =~= old(out)@ + const_lines(pool.deep_view().take(i + 1), ind@));
        }
        i = i + 1;
    }
    proof {
        assert(pool.deep_view().take(n as int) =~= pool.deep_view());
    }
}

/// Appends the comma-separated line numbers.
fn push_nums(out: &mut Vec<u8>, nums: &Vec<u64>)
    ensures
        final(out)@ == old(out)@ + nums_text(nums@),
{
    let n = nums.len();
    let mut i: usize = 0;
    while i < n
        invariant
            i <= n,
            n == nums@.len(),
            out@ == old(out)@ + nums_text(nums@.take(i as int)),
        decreases n - i,
    {
        push_dec(out, nums[i]);
        push_slice(out, ", ".as_bytes());
        proof {
            assert(nums@.take(i + 1).drop_last() =~= nums@.take(i as int));
            assert(nums@.take(i + 1).last() == nums@[i as int]);
            assert(out@ =~= old(out)@ + nums_text(nums@.take(i + 1)));
        }
        i = i + 1;
    }
    proof {
        assert(nums@.take(n as int) =~= nums@);
    }
}

/// Appends the indented display lines of the local-variable table.
fn push_local_lines(out: &mut Vec<u8>, locals: &Vec<LocalVariable>, ind: &Vec<u8>)
    ensures
        final(out)@ == old(out)@ + local_lines(locals.deep_view(), ind@),
{
    let n = locals.len();
    let mut i: usize = 0;
    while i < n
        invariant
            i <= n,
            n == locals@.len(),
            out@ == old(out)@ + local_lines(locals.deep_view().take(i as int), ind@),
        decreases n - i,
    {
        push_bytes(out, ind);
        let line = locals[i].text();
        push_bytes(out, &line);
        out.push(10u8);
        proof {
            assert(locals.deep_view().take(i + 1).drop_last() =~= locals.deep_view().take(
                i as int,
            ));
            assert(locals.deep_view().take(i + 1).last() == locals.deep_view()[i as int]);
            assert(out@ =~= old(out)@ + local_lines(locals.deep_view().take(i + 1), ind@));
        }
        i = i + 1;
    }
    proof {
        assert(locals.deep_view().take(n as int) =~= locals.deep_view());
    }
}

/// Appends the indented upvalue names.
fn push_name_lines(out: &mut Vec<u8>, names: &Vec<Vec<u8>>, ind: &Vec<u8>)
    ensures
        final(out)@ == old(out)@ + name_lines(names.deep_view(), ind@),
{
    let n = names.len();
    let mut i: usize = 0;
    while i < n
        invariant
            i <= n,
            n == names@.len(),
            out@ == old(out)@ + name_lines(names.deep_view().take(i as int), ind@),
        decreases n - i,
    {
        push_bytes(out, ind);
        push_bytes(out, &names[i]);
        out.push(10u8);
        proof {
            assert(names.deep_view().take(i + 1).drop_last() =~= names.deep_view().take(i as int));
            assert(names.deep_view().take(i + 1).last() == names.deep_view()[i as int]);
            assert(out@ =~= old(out)@ + name_lines(names.deep_view().take(i + 1), ind@));
        }
        i = i + 1;
    }
    proof {
        assert(names.deep_view().take(n as int) =~= names.deep_view());
    }
}

impl Function {
    /// The human-readable dump of this prototype and, one level deeper,
    /// of its nested prototypes.
    #[verifier::rlimit(80)]
    pub fn display_function(&self, tabulation: usize) -> (r: Vec<u8>)
        requires
            tabulation + proto_count(*self) <= usize::MAX,
        ensures
            r@ == function_dump(*self, tabulation as nat),
        decreases *self,
    {
        let mut out: Vec<u8> = Vec::new();
        let tabs = make_tabs(tabulation);
        let mut ind = make_tabs(tabulation);
        ind.push(9u8);
        ind.push(9u8);
        proof {
            assert(ind@ =~= tab_seq(tabulation as nat) + seq![9u8, 9u8]);
        }
        push_bytes(&mut out, &tabs);
        push_slice(&mut out, "Function ".as_bytes());
        push_bytes(&mut out, &self.name);
        push_slice(&mut out, ": {\n".as_bytes());
        push_bytes(&mut out, &tabs);
        push_slice(&mut out, "\tFirst Line: ".as_bytes());
        push_dec(&mut out, self.first_line);
        out.push(10u8);
        push_bytes(&mut out, &tabs);
        push_slice(&mut out, "\tLast Line : ".as_bytes());
        push_dec(&mut out, self.last_line);
        out.push(10u8);
        push_bytes(&mut out, &tabs);
        push_slice(&mut out, "\tUpValues  : ".as_bytes());
        push_dec(&mut out, self.up_values as u64);
        out.push(10u8);
        push_bytes(&mut out, &tabs);
        push_slice(&mut out, "\tArgs      : ".as_bytes());
        push_dec(&mut out, self.args as u64);
        out.push(10u8);
        push_bytes(&mut out, &tabs);
        push_slice(&mut out, "\tVargs     : ".as_bytes());
        push_dec(&mut out, self.vargs as u64);
        out.push(10u8);
        push_bytes(&mut out, &tabs);
        push_slice(&mut out, "\tStack     : ".as_bytes());
        push_dec(&mut out, self.stack as u64);
        out.push(10u8);
        push_bytes(&mut out, &tabs);
        push_slice(&mut out, "\tInstructions:\n".as_bytes());
        push_instr_lines(&mut out, &self.instr_list, &ind);
        push_bytes(&mut out, &tabs);
        push_slice(&mut out, "\tConstants:\n".as_bytes());
        push_const_lines(&mut out, &self.const_list, &ind);
        let n = self.func_list.len();
        let mut i: usize = 0;
        while i < n
            invariant
                i <= n,
                n == self.func_list@.len(),
                tabulation + proto_count(*self) <= usize::MAX,
                out@ == function_dump_front(*self, tabulation as nat) + children_dump(
                    self.func_list@.take(i as int),
                    (tabulation + 1) as nat,
                ),
            decreases n - i,
        {
            proof {
                assert(decreases_to!(*self => self.func_list));
                assert(decreases_to!(self.func_list => self.func_list@));
                assert(decreases_to!(self.func_list@ => self.func_list@[i as int]));
                assert(decreases_to!(*self => self.func_list@[i as int]));
                lemma_count_list_split(self.func_list@, i as int);
                lemma_count_list_last(self.func_list@.take(i + 1));
                assert(self.func_list@.take(i + 1).drop_last() =~= self.func_list@.take(i as int));
                assert(self.func_list@.take(i + 1).last() == self.func_list@[i as int]);
                lemma_count_list_split(self.func_list@, i + 1);
            }
            let child = self.func_list[i].display_function(tabulation + 1);
            push_bytes(&mut out, &child);
            proof {
                assert(out@ =~= function_dump_front(*self, tabulation as nat) + children_dump(
                    self.func_list@.take(i + 1),
                    (tabulation + 1) as nat,
                ));
            }
            i = i + 1;
        }
        proof {
            assert(self.func_list@.take(n as int) =~= self.func_list@);
        }
        push_bytes(&mut out, &tabs);
        push_slice(&mut out, "\tLines : [".as_bytes());
        push_nums(&mut out, &self.lines_list);
        push_slice(&mut out, "]\n".as_bytes());
        push_bytes(&mut out, &tabs);
        push_slice(&mut out, "\tLocal Variables:\n".as_bytes());
        push_local_lines(&mut out, &self.local_list, &ind);
        push_bytes(&mut out, &tabs);
        push_slice(&mut out, "\tUpvalues:\n".as_bytes());
        push_name_lines(&mut out, &self.upvalues_list, &ind);
        push_bytes(&mut out, &tabs);
        push_slice(&mut out, "}\n".as_bytes());
        proof {
            assert(out@ =~= function_dump(*self, tabulation as nat));
        }
        out
    }

    /// Assigns this prototype the identifier `id` and its descendants the
    /// following ones in pre-order; returns the rebuilt tree and the last
    /// identifier assigned.
    fn assign_id(self, id: usize) -> (r: (Function, usize))
        requires
            id + proto_count(self) <= usize::MAX + 1,
        ensures
            ids_from(r.0, id as int),
            same_but_ids(r.0, self),
            r.1 == id + proto_count(self) - 1,
        decreases self,
    {
        let Function {
            name,
            first_line,
            last_line,
            up_values,
            args,
            vargs,
            stack,
            instr_list,
            const_list,
            mut func_list,
            lines_list,
            local_list,
            upvalues_list,
            identifier: _,
        } = self;
        let ghost orig_children = func_list@;
        let mut new_children: Vec<Function> = Vec::new();
        let mut last = id;
        let n = func_list.len();
        let mut i: usize = 0;
        while i < n
            invariant
                n == orig_children.len(),
                orig_children == self.func_list@,
                i <= n,
                func_list@ == orig_children.subrange(i as int, n as int),
                new_children@.len() == i,
                last == id + proto_count_list(orig_children.take(i as int)),
                id + proto_count_list(orig_children) <= usize::MAX,
                ids_from_list(new_children@, id + 1),
                forall|j: int|
                    0 <= j < i ==> same_but_ids(#[trigger] new_children@[j], orig_children[j]),
            decreases n - i,
        {
            let child = func_list.remove(0);
            proof {
                assert(child == orig_children[i as int]);
                lemma_count_list_split(orig_children, i as int);
                lemma_count_list_split(orig_children, i + 1);
                lemma_count_list_last(orig_children.take(i + 1));
                assert(orig_children.take(i + 1).drop_last() =~= orig_children.take(i as int));
                assert(orig_children.take(i + 1).last() == orig_children[i as int]);
                assert(child == self.func_list@[i as int]);
                assert(decreases_to!(self => self.func_list));
                assert(decreases_to!(self.func_list => self.func_list@));
                assert(decreases_to!(self.func_list@ => self.func_list@[i as int]));
                assert(decreases_to!(self => self.func_list@[i as int]));
            }
            let (fresh, child_last) = child.assign_id(last + 1);
            proof {
                lemma_same_but_ids_count(fresh, child);
                assert(forall|j: int|
                    0 <= j < i ==> orig_children.take(i as int)[j] == orig_children[j]);
                lemma_same_but_ids_count_list(new_children@, orig_children.take(i as int));
                lemma_ids_from_list_snoc(new_children@, id + 1, fresh);
            }
            last = child_last;
            new_children.push(fresh);
            i = i + 1;
        }
        proof {
            assert(orig_children.take(n as int) =~= orig_children);
        }
        let r = Function {
            name,
            first_line,
            last_line,
            up_values,
            args,
            vargs,
            stack,
            instr_list,
            const_list,
            func_list: new_children,
            lines_list,
            local_list,
            upvalues_list,
            identifier: id,
        };
        (r, last)
    }

    /// Assigns dense pre-order identifiers starting at zero and returns
    /// the largest one, the highest index of the upvalue table.
    pub fn assign_upval_id(self) -> (r: (Function, usize))
        requires
            proto_count(self) <= usize::MAX + 1,
        ensures
            ids_from(r.0, 0),
            same_but_ids(r.0, self),
            r.1 == proto_count(self) - 1,
    {
        self.assign_id(0)
    }
}

/// The indented display lines of a code list.
pub open spec fn instr_lines(code: Seq<Instruction>, ind: Seq<u8>) -> Seq<u8>
    decreases code.len(),
{
    if code.len() == 0 {
        Seq::empty()
    } else {
        instr_lines(code.drop_last(), ind) + ind + instruction_text(code.last()) + seq![10u8]
    }
}

/// The indented display lines of a constant pool.
pub open spec fn const_lines(pool: Seq<ConstantModel>, ind: Seq<u8>) -> Seq<u8>
    decreases pool.len(),
{
    if pool.len() == 0 {
        Seq::empty()
    } else {
        const_lines(pool.drop_last(), ind) + ind + constant_text(pool.last()) + seq![10u8]
    }
}

/// The comma-separated line numbers of the line table.
pub open spec fn nums_text(nums: Seq<u64>) -> Seq<u8>
    decreases nums.len(),
{
    if nums.len() == 0 {
        Seq::empty()
    } else {
        nums_text(nums.drop_last()) + dec_spec(nums.last() as nat) + encode_utf8(", "@)
    }
}

/// The indented display lines of the local-variable table.
pub open spec fn local_lines(locals: Seq<(Seq<u8>, u32, u32)>, ind: Seq<u8>) -> Seq<u8>
    decreases locals.len(),
{
    if locals.len() == 0 {
        Seq::empty()
    } else {
        local_lines(locals.drop_last(), ind) + ind + local_text(locals.last()) + seq![10u8]
    }
}

/// The indented upvalue names, one per line.
pub open spec fn name_lines(names: Seq<Seq<u8>>, ind: Seq<u8>) -> Seq<u8>
    decreases names.len(),
{
    if names.len() == 0 {
        Seq::empty()
    } else {
        name_lines(names.drop_last(), ind) + ind + names.last() + seq![10u8]
    }
}

/// The part of a prototype's dump that stands before its nested
/// prototypes: the header fields, the code and the constants.
pub open spec fn function_dump_front(f: Function, t: nat) -> Seq<u8> {
    let tabs = tab_seq(t);
    tabs + encode_utf8("Function "@) + f.name@ + encode_utf8(": {\n"@) + tabs + encode_utf8(
        "\tFirst Line: "@,
    ) + dec_spec(f.first_line as nat) + seq![10u8] + tabs + encode_utf8("\tLast Line : "@)
        + dec_spec(f.last_line as nat) + seq![10u8] + tabs + encode_utf8("\tUpValues  : "@)
        + dec_spec(f.up_values as nat) + seq![10u8] + tabs + encode_utf8("\tArgs      : "@)
        + dec_spec(f.args as nat) + seq![10u8] + tabs + encode_utf8("\tVargs     : "@) + dec_spec(
        f.vargs as nat,
    ) + seq![10u8] + tabs + encode_utf8("\tStack     : "@) + dec_spec(f.stack as nat) + seq![10u8]
        + tabs + encode_utf8("\tInstructions:\n"@) + instr_lines(
        f.instr_list@,
        tabs + seq![9u8, 9u8],
    ) + tabs + encode_utf8("\tConstants:\n"@) + const_lines(
        f.const_list.deep_view(),
        tabs + seq![9u8, 9u8],
    )
}

/// The part of a prototype's dump that stands after its nested
/// prototypes: the line table, the debug tables and the closing brace.
pub open spec fn function_dump_tail(f: Function, t: nat) -> Seq<u8> {
    let tabs = tab_seq(t);
    tabs + encode_utf8("\tLines : ["@) + nums_text(f.lines_list@) + encode_utf8("]\n"@) + tabs
        + encode_utf8("\tLocal Variables:\n"@) + local_lines(
        f.local_list.deep_view(),
        tabs + seq![9u8, 9u8],
    ) + tabs + encode_utf8("\tUpvalues:\n"@) + name_lines(
        f.upvalues_list.deep_view(),
        tabs + seq![9u8, 9u8],
    ) + tabs + encode_utf8("}\n"@)
}

/// The dump of a prototype at a given indentation depth: its header
/// fields, code, constants, nested prototypes one level deeper, and the
/// debug tables.
pub open spec fn function_dump(f: Function, t: nat) -> Seq<u8>
    decreases f,
{
    function_dump_front(f, t) + children_dump(f.func_list@, t + 1) + function_dump_tail(f, t)
}

/// The dumps of the nested prototypes, in order.
pub open spec fn children_dump(s: Seq<Function>, t: nat) -> Seq<u8>
    decreases s,
{
    if s.len() == 0 {
        Seq::empty()
    } else {
        children_dump(s.drop_last(), t) + function_dump(s.last(), t)
    }
}

/// Splitting a forest at `i` splits its prototype count.
pub proof fn lemma_count_list_split(s: Seq<Function>, i: int)
    requires
        0 <= i <= s.len(),
    ensures
        proto_count_list(s) == proto_count_list(s.take(i)) + proto_count_list(
            s.subrange(i, s.len() as int),
        ),
    decreases i,
{
    if i == 0 {
        assert(s.take(0) =~= Seq::<Function>::empty());
        assert(s.subrange(0, s.len() as int) =~= s);
    } else {
        lemma_count_list_split(s.subrange(1, s.len() as int), i - 1);
        assert(s.take(i).subrange(1, i) =~= s.subrange(1, s.len() as int).take(i - 1));
        assert(s.subrange(1, s.len() as int).subrange(i - 1, s.len() - 1) =~= s.subrange(
            i,
            s.len() as int,
        ));
        assert(s.take(i)[0] == s[0]);
        assert(proto_count_list(s.take(i)) == proto_count(s[0]) + proto_count_list(
            s.take(i).subrange(1, i),
        ));
    }
}

/// The count of a non-empty forest is the count of its front part plus
/// its last tree.
pub proof fn lemma_count_list_last(s: Seq<Function>)
    requires
        s.len() > 0,
    ensures
        proto_count_list(s) == proto_count_list(s.drop_last()) + proto_count(s.last()),
    decreases s.len(),
{
    if s.len() == 1 {
        assert(s.drop_last() =~= Seq::<Function>::empty());
        assert(s.subrange(1, s.len() as int) =~= Seq::<Function>::empty());
    } else {
        lemma_count_list_last(s.subrange(1, s.len() as int));
        assert(s.drop_last().subrange(1, s.len() - 1) =~= s.subrange(1, s.len() as int).drop_last());
        assert(s.subrange(1, s.len() as int).last() == s.last());
        assert(s.drop_last()[0] == s[0]);
        assert(proto_count_list(s.drop_last()) == proto_count(s[0]) + proto_count_list(
            s.drop_last().subrange(1, s.len() - 1),
        ));
    }
}

/// Two prototypes that differ only in identifiers hold the same number of
/// prototypes.
pub proof fn lemma_same_but_ids_count(f: Function, g: Function)
    requires
        same_but_ids(f, g),
    ensures
        proto_count(f) == proto_count(g),
    decreases f,
{
    lemma_same_but_ids_count_list(f.func_list@, g.func_list@);
}

proof fn lemma_same_but_ids_count_list(s: Seq<Function>, t: Seq<Function>)
    requires
        s.len() == t.len(),
        forall|i: int| 0 <= i < s.len() ==> same_but_ids(#[trigger] s[i], t[i]),
    ensures
        proto_count_list(s) == proto_count_list(t),
    decreases s,
{
    if s.len() > 0 {
        lemma_same_but_ids_count(s[0], t[0]);
        lemma_same_but_ids_count_list(s.subrange(1, s.len() as int), t.subrange(1, t.len() as int));
    }
}

/// Extending a pre-order-assigned forest by the tree that takes the next
/// identifiers keeps it pre-order assigned.
proof fn lemma_ids_from_list_snoc(s: Seq<Function>, base: int, t: Function)
    requires
        ids_from_list(s, base),
        ids_from(t, base + proto_count_list(s)),
    ensures
        ids_from_list(s.push(t), base),
    decreases s.len(),
{
    if s.len() == 0 {
        assert(s.push(t)[0] == t);
        assert(s.push(t).subrange(1, 1) =~= Seq::<Function>::empty());
        assert(ids_from(s.push(t)[0], base));
        assert(ids_from_list(s.push(t).subrange(1, 1), base + proto_count(s.push(t)[0])));
    } else {
        assert(s.push(t).subrange(1, s.len() + 1 as int) =~= s.subrange(1, s.len() as int).push(
            t,
        ));
        lemma_ids_from_list_snoc(s.subrange(1, s.len() as int), base + proto_count(s[0]), t);
        assert(s.push(t)[0] == s[0]);
        assert(ids_from(s.push(t)[0], base));
        assert(ids_from_list(
            s.push(t).subrange(1, s.len() + 1 as int),
            base + proto_count(s.push(t)[0]),
        ));
    }
}

} // verus!
