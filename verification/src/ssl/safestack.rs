//! A stack of names behind an opaque handle, and the calls that foreign
//! callers make on it.
//!
//! A handle is an optional reference: absent where the caller passed nothing,
//! present where it passed an object. Every call validates the handle first
//! and answers a failed validation with a sentinel, leaving the object as it
//! was. Destroying a stack wipes its tag, so that a handle kept past the
//! destruction is refused like any other mistyped one.

use vstd::prelude::*;
use libc::c_int;
use crate::ssl::err::{ErrorCode, MesalinkInnerResult};
use crate::ssl::error_san::{pointee, sanitize_const_ptr_for_ref, sanitize_ptr_for_mut_ref};
use crate::ssl::x509::{NameModel, MESALINK_X509_NAME};
use crate::ssl::{tag_matches, MesalinkOpaquePointerType, MAGIC, MAGIC_SIZE, SSL_FAILURE, SSL_SUCCESS, WIPED};

verus! {

/// What a stack is worth: its tag and the names it holds, oldest first.
pub struct StackModel {
    pub tag: Seq<u8>,
    pub names: Seq<NameModel>,
}

/// A growable sequence of names that owns its elements.
#[allow(non_camel_case_types)]
pub struct MESALINK_STACK_MESALINK_X509_NAME {
    magic: [u8; MAGIC_SIZE],
    pub stack: Vec<MESALINK_X509_NAME>,
}

impl MESALINK_STACK_MESALINK_X509_NAME {
    /// The tag that the object carries.
    pub closed spec fn tag(&self) -> Seq<u8> {
        self.magic@
    }

    /// The names that the object owns, oldest first.
    pub closed spec fn held(&self) -> Seq<MESALINK_X509_NAME> {
        self.stack@
    }

    /// A live stack that owns `names`, in their order.
    pub fn new(names: Vec<MESALINK_X509_NAME>) -> (res: MESALINK_STACK_MESALINK_X509_NAME)
        ensures
            res.tag() == MAGIC@,
            res.held() == names@,
            res.tagged(),
    {
        MESALINK_STACK_MESALINK_X509_NAME { magic: MAGIC, stack: names }
    }
}

impl View for MESALINK_STACK_MESALINK_X509_NAME {
    type V = StackModel;

    open spec fn view(&self) -> StackModel {
        StackModel { tag: self.tag(), names: self.held().map_values(|n: MESALINK_X509_NAME| n@) }
    }
}

impl MesalinkOpaquePointerType for MESALINK_STACK_MESALINK_X509_NAME {
    open spec fn tagged(&self) -> bool {
        self@.tag == MAGIC@
    }

    fn check_magic(&self) -> (ok: bool) {
        tag_matches(&self.magic)
    }
}

/// The stack behind a handle, if the handle passes validation.
pub open spec fn checked_stack(handle: Option<StackModel>) -> Result<StackModel, ErrorCode> {
    match handle {
        None => Err(ErrorCode::NullPointer),
        Some(s) => if s.tag == MAGIC@ {
            Ok(s)
        } else {
            Err(ErrorCode::TypeMismatch)
        },
    }
}

/// The name behind an item reference, if the reference passes validation.
pub open spec fn checked_name(item: Option<NameModel>) -> Result<NameModel, ErrorCode> {
    match item {
        None => Err(ErrorCode::NullPointer),
        Some(n) => if n.tag == MAGIC@ {
            Ok(n)
        } else {
            Err(ErrorCode::TypeMismatch)
        },
    }
}

/// A stack that was just created: live and empty.
pub open spec fn empty_stack() -> StackModel {
    StackModel { tag: MAGIC@, names: Seq::empty() }
}

/// The number of names behind a handle, as the platform's `int`.
pub open spec fn num_of(handle: Option<StackModel>) -> Result<c_int, ErrorCode> {
    match checked_stack(handle) {
        Ok(s) => Ok(s.names.len() as c_int),
        Err(e) => Err(e),
    }
}

/// The name at `index` behind a handle. Any index outside the names held,
/// a negative one too, is a `BadArgument`.
pub open spec fn value_of(handle: Option<StackModel>, index: c_int) -> Result<NameModel, ErrorCode> {
    match checked_stack(handle) {
        Ok(s) => if 0 <= index < s.names.len() {
            Ok(s.names[index as int])
        } else {
            Err(ErrorCode::BadArgument)
        },
        Err(e) => Err(e),
    }
}

/// The stack that a push makes. The stack handle is validated first, the
/// item second; the name goes to the end.
pub open spec fn push_of(handle: Option<StackModel>, item: Option<NameModel>) -> Result<
    StackModel,
    ErrorCode,
> {
    match checked_stack(handle) {
        Ok(s) => match checked_name(item) {
            Ok(n) => Ok(StackModel { tag: s.tag, names: s.names.push(n) }),
            Err(e) => Err(e),
        },
        Err(e) => Err(e),
    }
}

/// What is behind a handle after a push: the grown stack, or what was there
/// before where the push was refused.
pub open spec fn after_push(handle: Option<StackModel>, item: Option<NameModel>) -> Option<
    StackModel,
> {
    match push_of(handle, item) {
        Ok(s) => Some(s),
        Err(_) => handle,
    }
}

/// What a destroyed stack leaves behind: no names and a wiped tag.
pub open spec fn wiped_stack() -> StackModel {
    StackModel { tag: WIPED@, names: Seq::empty() }
}

/// What is behind a handle after its destruction was asked for: the wiped
/// object, or what was there before where the handle was refused.
pub open spec fn after_free(handle: Option<StackModel>) -> Option<StackModel> {
    match checked_stack(handle) {
        Ok(_) => Some(wiped_stack()),
        Err(_) => handle,
    }
}

/// `after` is `before` with one more name at the end, worth what `item` is
/// worth. The names of `before` are the same objects at the same places.
pub open spec fn appended(
    before: Seq<MESALINK_X509_NAME>,
    after: Seq<MESALINK_X509_NAME>,
    item: Option<NameModel>,
) -> bool {
    &&& after.len() == before.len() + 1
    &&& after.drop_last() == before
    &&& Some(after.last()@) == item
}

/// What a writable handle is worth before the call that received it.
pub open spec fn before(ptr: Option<&mut MESALINK_STACK_MESALINK_X509_NAME>) -> Option<StackModel> {
    match ptr {
        None => None,
        Some(s) => Some((*s)@),
    }
}

/// Creates an empty live stack and hands its ownership to the caller.
#[allow(non_snake_case)]
pub fn mesalink_sk_X509_NAME_new_null() -> (stack: Box<MESALINK_STACK_MESALINK_X509_NAME>)
    ensures
        stack@ == empty_stack(),
        stack.tagged(),
        stack.held().len() == 0,
{
    let stack = MESALINK_STACK_MESALINK_X509_NAME::new(Vec::new());
    proof {
        assert(stack@.names =~= Seq::empty());
    }
    Box::new(stack)
}

/// The number of names in the stack, or `SSL_FAILURE` where the handle is
/// refused. An absent handle is always refused.
#[allow(non_snake_case)]
pub fn mesalink_sk_X509_NAME_num(stack_ptr: Option<&MESALINK_STACK_MESALINK_X509_NAME>) -> (n: c_int)
    ensures
        n == match num_of(pointee(stack_ptr)) {
            Ok(count) => count,
            Err(_) => SSL_FAILURE,
        },
        stack_ptr is None ==> n == SSL_FAILURE,
        stack_ptr matches Some(s) ==> (s.tagged() && s.held().len() <= c_int::MAX ==> n
            == s.held().len()),
{
    match inner_mesalink_sk_X509_NAME_num(stack_ptr) {
        Ok(count) => count,
        Err(_) => SSL_FAILURE,
    }
}

/// Validates the handle and counts the names. A count that the platform's
/// `int` holds comes back as it is, and is not negative.
#[allow(non_snake_case)]
pub fn inner_mesalink_sk_X509_NAME_num(
    stack_ptr: Option<&MESALINK_STACK_MESALINK_X509_NAME>,
) -> (res: MesalinkInnerResult<c_int>)
    ensures
        res == num_of(pointee(stack_ptr)),
        res matches Ok(count) ==> (stack_ptr matches Some(s) && (s.held().len() <= c_int::MAX
            ==> count == s.held().len())),
{
    let stack = sanitize_const_ptr_for_ref(stack_ptr)?;
    Ok(#[verifier::truncate] (stack.stack.len() as c_int))
}

/// The name at `index`, not copied, or nothing where the handle is refused
/// or the index is negative or not below the count.
#[allow(non_snake_case)]
pub fn mesalink_sk_X509_NAME_value<'a>(
    stack_ptr: Option<&'a MESALINK_STACK_MESALINK_X509_NAME>,
    index: c_int,
) -> (item: Option<&'a MESALINK_X509_NAME>)
    ensures
        pointee(item) == match value_of(pointee(stack_ptr), index) {
            Ok(name) => Some(name),
            Err(_) => None::<NameModel>,
        },
        item matches Some(name) ==> (stack_ptr matches Some(s) && *name == s.held()[index as int]),
        stack_ptr is None ==> item is None,
        index < 0 ==> item is None,
        (stack_ptr matches Some(s) && index >= s.held().len()) ==> item is None,
{
    match inner_mesalink_sk_X509_NAME_value(stack_ptr, index) {
        Ok(name) => Some(name),
        Err(_) => None,
    }
}

/// Validates the handle, then the index, and borrows the name at `index`
/// from the stack.
#[allow(non_snake_case)]
pub fn inner_mesalink_sk_X509_NAME_value<'a>(
    stack_ptr: Option<&'a MESALINK_STACK_MESALINK_X509_NAME>,
    index: c_int,
) -> (res: MesalinkInnerResult<&'a MESALINK_X509_NAME>)
    ensures
        match value_of(pointee(stack_ptr), index) {
            Ok(name) => res matches Ok(item) && item@ == name,
            Err(e) => res matches Err(f) && f == e,
        },
        res matches Ok(item) ==> (stack_ptr matches Some(s) && *item == s.held()[index as int]),
{
    let stack = sanitize_const_ptr_for_ref(stack_ptr)?;
    if index < 0 {
        return Err(ErrorCode::BadArgument);
    }
    let i: usize = index as usize;
    if i < stack.stack.len() {
        Ok(&stack.stack[i])
    } else {
        Err(ErrorCode::BadArgument)
    }
}

/// Appends a copy of the item: `SSL_SUCCESS`, or `SSL_FAILURE` where either
/// handle is refused, which leaves the stack as it was.
#[allow(non_snake_case)]
pub fn mesalink_sk_X509_NAME_push(
    stack_ptr: Option<&mut MESALINK_STACK_MESALINK_X509_NAME>,
    item_ptr: Option<&MESALINK_X509_NAME>,
) -> (status: c_int)
    ensures
        status == match push_of(before(stack_ptr), pointee(item_ptr)) {
            Ok(_) => SSL_SUCCESS,
            Err(_) => SSL_FAILURE,
        },
        match stack_ptr {
            Some(s) => Some(final(s)@) == after_push(Some(s@), pointee(item_ptr)) && (status
                == SSL_FAILURE ==> *final(s) == *s) && (status == SSL_SUCCESS ==> appended(
                s.held(),
                final(s).held(),
                pointee(item_ptr),
            )),
            None => true,
        },
        stack_ptr is None || item_ptr is None ==> status == SSL_FAILURE,
{
    match inner_mesalink_sk_X509_NAME_push(stack_ptr, item_ptr) {
        Ok(status) => status,
        Err(_) => SSL_FAILURE,
    }
}

/// Validates the stack handle, then the item, and appends a copy of the
/// item. The copy gets the index that was the count before the call.
#[allow(non_snake_case)]
pub fn inner_mesalink_sk_X509_NAME_push(
    stack_ptr: Option<&mut MESALINK_STACK_MESALINK_X509_NAME>,
    item_ptr: Option<&MESALINK_X509_NAME>,
) -> (res: MesalinkInnerResult<c_int>)
    ensures
        res == match push_of(before(stack_ptr), pointee(item_ptr)) {
            Ok(_) => Ok::<c_int, ErrorCode>(SSL_SUCCESS),
            Err(e) => Err(e),
        },
        match stack_ptr {
            Some(s) => Some(final(s)@) == after_push(Some(s@), pointee(item_ptr)) && (res is Err
                ==> *final(s) == *s) && (res is Ok ==> appended(
                s.held(),
                final(s).held(),
                pointee(item_ptr),
            )),
            None => true,
        },
{
    let stack = sanitize_ptr_for_mut_ref(stack_ptr)?;
    let item = sanitize_const_ptr_for_ref(item_ptr)?;
    let ghost held = stack.stack@;
    let copy = item.clone();
    stack.stack.push(copy);
    proof {
        assert(stack.stack@.map_values(|n: MESALINK_X509_NAME| n@) =~= held.map_values(
            |n: MESALINK_X509_NAME| n@,
        ).push(item@));
        assert(stack.stack@.drop_last() =~= held);
    }
    Ok(SSL_SUCCESS)
}

/// Destroys the stack behind the handle. A refused handle is left alone.
#[allow(non_snake_case)]
pub fn mesalink_sk_X509_NAME_free(stack_ptr: Option<&mut MESALINK_STACK_MESALINK_X509_NAME>)
    ensures
        match stack_ptr {
            Some(s) => Some(final(s)@) == after_free(Some(s@)) && (!s.tagged() ==> *final(s) == *s),
            None => true,
        },
{
    let _ = inner_mesalink_sk_X509_NAME_free(stack_ptr);
}

/// Validates the handle, then releases every name with the storage that
/// held them and wipes the tag, so that the handle is refused from then on.
#[allow(non_snake_case)]
pub fn inner_mesalink_sk_X509_NAME_free(
    stack_ptr: Option<&mut MESALINK_STACK_MESALINK_X509_NAME>,
) -> (res: MesalinkInnerResult<c_int>)
    ensures
        res == match checked_stack(before(stack_ptr)) {
            Ok(_) => Ok::<c_int, ErrorCode>(SSL_SUCCESS),
            Err(e) => Err(e),
        },
        match stack_ptr {
            Some(s) => Some(final(s)@) == after_free(Some(s@)) && (res is Err ==> *final(s) == *s)
                && (res is Ok ==> !final(s).tagged() && final(s).held().len() == 0),
            None => true,
        },
{
    let stack = sanitize_ptr_for_mut_ref(stack_ptr)?;
    stack.stack = Vec::new();
    stack.magic = WIPED;
    proof {
        assert(stack.stack@.map_values(|n: MESALINK_X509_NAME| n@) =~= Seq::empty());
        assert(WIPED@[0] != MAGIC@[0]);
    }
    Ok(SSL_SUCCESS)
}

/// What is behind a handle after each item of `items` was pushed in turn.
pub open spec fn after_pushes(handle: Option<StackModel>, items: Seq<Option<NameModel>>) -> Option<
    StackModel,
>
    decreases items.len(),
{
    if items.len() == 0 {
        handle
    } else {
        after_push(after_pushes(handle, items.drop_last()), items.last())
    }
}

/// The names among `items` that a push accepts, in their order.
pub open spec fn accepted(items: Seq<Option<NameModel>>) -> Seq<NameModel>
    decreases items.len(),
{
    if items.len() == 0 {
        Seq::empty()
    } else {
        match checked_name(items.last()) {
            Ok(n) => accepted(items.drop_last()).push(n),
            Err(_) => accepted(items.drop_last()),
        }
    }
}

/// A run of pushes on a live stack appends the accepted names, in the order
/// of the pushes, and changes nothing else.
pub proof fn lemma_pushes_append(s: StackModel, items: Seq<Option<NameModel>>)
    requires
        s.tag == MAGIC@,
    ensures
        after_pushes(Some(s), items) == Some(
            StackModel { tag: s.tag, names: s.names + accepted(items) },
        ),
    decreases items.len(),
{
    if items.len() == 0 {
        assert(s.names + accepted(items) =~= s.names);
    } else {
        lemma_pushes_append(s, items.drop_last());
        let earlier = accepted(items.drop_last());
        match checked_name(items.last()) {
            Ok(n) => {
                assert((s.names + earlier).push(n) =~= s.names + earlier.push(n));
            },
            Err(_) => {},
        }
    }
}

/// A run of pushes through a handle that validation refuses changes nothing.
pub proof fn lemma_pushes_refused(handle: Option<StackModel>, items: Seq<Option<NameModel>>)
    requires
        checked_stack(handle) is Err,
    ensures
        after_pushes(handle, items) == handle,
    decreases items.len(),
{
    if items.len() > 0 {
        lemma_pushes_refused(handle, items.drop_last());
    }
}

/// After a run of pushes on a new stack, the count is the number of pushes
/// that succeeded.
pub proof fn lemma_count_after_pushes(items: Seq<Option<NameModel>>)
    ensures
        num_of(after_pushes(Some(empty_stack()), items)) == Ok::<c_int, ErrorCode>(
            accepted(items).len() as c_int,
        ),
        accepted(items).len() <= c_int::MAX ==> (num_of(after_pushes(Some(empty_stack()), items))
            matches Ok(n) && n == accepted(items).len()),
{
    lemma_pushes_append(empty_stack(), items);
    assert(empty_stack().names + accepted(items) =~= accepted(items));
}

/// After a run of pushes on a new stack, every index below the count gives
/// the name that was pushed at that place, by value.
pub proof fn lemma_value_after_pushes(items: Seq<Option<NameModel>>, index: c_int)
    requires
        0 <= index < accepted(items).len(),
    ensures
        value_of(after_pushes(Some(empty_stack()), items), index) == Ok::<NameModel, ErrorCode>(
            accepted(items)[index as int],
        ),
{
    lemma_pushes_append(empty_stack(), items);
    assert(empty_stack().names + accepted(items) =~= accepted(items));
}

/// A push moves no name that the stack already holds.
pub proof fn lemma_push_keeps_earlier(
    handle: Option<StackModel>,
    item: Option<NameModel>,
    index: c_int,
)
    requires
        value_of(handle, index) is Ok,
    ensures
        value_of(after_push(handle, item), index) == value_of(handle, index),
{
}

/// An index that is negative, or not below the count, gives no name.
pub proof fn lemma_value_out_of_range(handle: Option<StackModel>, index: c_int)
    requires
        index < 0 || (handle matches Some(s) && index >= s.names.len()),
    ensures
        value_of(handle, index) is Err,
{
}

/// An absent handle is refused by every call, and nothing comes to stand
/// behind it.
pub proof fn lemma_null_handle_is_refused(item: Option<NameModel>, index: c_int)
    ensures
        num_of(None) == Err::<c_int, ErrorCode>(ErrorCode::NullPointer),
        value_of(None, index) == Err::<NameModel, ErrorCode>(ErrorCode::NullPointer),
        push_of(None, item) == Err::<StackModel, ErrorCode>(ErrorCode::NullPointer),
        after_push(None, item) == None::<StackModel>,
        after_free(None) == None::<StackModel>,
{
}

/// Once a live stack was destroyed, every call through its handle is
/// refused as a type mismatch and leaves the wiped object as it is; a second
/// destruction does nothing.
pub proof fn lemma_destroyed_handle_is_refused(s: StackModel, item: Option<NameModel>, index: c_int)
    requires
        s.tag == MAGIC@,
    ensures
        after_free(Some(s)) == Some(wiped_stack()),
        num_of(after_free(Some(s))) == Err::<c_int, ErrorCode>(ErrorCode::TypeMismatch),
        value_of(after_free(Some(s)), index) == Err::<NameModel, ErrorCode>(
            ErrorCode::TypeMismatch,
        ),
        push_of(after_free(Some(s)), item) == Err::<StackModel, ErrorCode>(ErrorCode::TypeMismatch),
        after_push(after_free(Some(s)), item) == after_free(Some(s)),
        after_free(after_free(Some(s))) == after_free(Some(s)),
{
    assert(WIPED@[0] != MAGIC@[0]);
}

} // verus!
