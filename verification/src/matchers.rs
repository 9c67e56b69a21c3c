//! Probes that look for unwanted names: among the running processes, in
//! the titles of the top-level windows, among the named mutants and among
//! the objects that can be opened as files.
//!
//! A probe that is given no name at all detects nothing.

use crate::names::NameSet;
use crate::snapshot::{
    get_processes_names, get_top_window_names, ProcessListing, WindowListing,
    INVALID_HANDLE_VALUE,
};
use crate::wide::{object_name, utf16};
use vstd::prelude::*;

verus! {

/// The error code of the operating system for an object that is not there.
pub const ERROR_FILE_NOT_FOUND: u32 = 2;

/// What came of an attempt to open an object by its name.
#[derive(Clone, Copy, PartialEq, Eq, Structural, Debug)]
pub struct OpenAttempt {
    /// The handle that the operating system returned.
    pub handle: usize,
    /// The error code of the operating system right after the attempt.
    pub last_error: u32,
}

/// The kind of object that is looked for.
#[derive(Clone, Copy, PartialEq, Eq, Structural, Debug)]
pub enum Object {
    /// A named mutant, opened for synchronization only. No handle is a null
    /// handle.
    Mutant,
    /// An object that is opened as an existing file. No handle is
    /// [`INVALID_HANDLE_VALUE`].
    Symlink,
}

/// What an attempt to open a mutant tells: a handle, and the mutant is
/// there; no handle because there is no such object, and it is not there;
/// no handle for any other reason, and the probe fails with that reason.
pub open spec fn mutant_verdict(attempt: OpenAttempt) -> Result<bool, u32> {
    if attempt.handle != 0 {
        Ok(true)
    } else if attempt.last_error == ERROR_FILE_NOT_FOUND {
        Ok(false)
    } else {
        Err(attempt.last_error)
    }
}

/// What an attempt to open an object as a file tells: the object is there
/// if it could be opened. An object that is there and may not be opened
/// counts as not there.
pub open spec fn symlink_verdict(attempt: OpenAttempt) -> Result<bool, u32> {
    Ok(attempt.handle != INVALID_HANDLE_VALUE)
}

/// What an attempt to open an object of kind `object` tells.
pub open spec fn verdict(object: Object, attempt: OpenAttempt) -> Result<bool, u32> {
    match object {
        Object::Mutant => mutant_verdict(attempt),
        Object::Symlink => symlink_verdict(attempt),
    }
}

/// Whether `attempt` can be what `open` answers when it is asked for the
/// object `name`: `open` is handed the UTF-16 encoding of the name, closed
/// by a zero.
pub open spec fn answered<F: Fn(&Vec<u16>) -> OpenAttempt>(
    open: &F,
    name: Seq<char>,
    attempt: OpenAttempt,
) -> bool {
    exists|wide: Vec<u16>| wide@ == utf16(name).push(0u16) && open.ensures((&wide,), attempt)
}

/// Whether `outcome` is what a search for the objects `names`, in order,
/// comes to when `attempts` are the answers it got. The search asks for one
/// name after the other and stops at the first verdict other than "not
/// there", which is its outcome; if there is none, every name was asked
/// for, and the outcome is "not there".
pub open spec fn searched<F: Fn(&Vec<u16>) -> OpenAttempt>(
    object: Object,
    open: &F,
    names: Seq<Seq<char>>,
    attempts: Seq<OpenAttempt>,
    outcome: Result<bool, u32>,
) -> bool {
    &&& attempts.len() <= names.len()
    &&& forall|i: int| 0 <= i < attempts.len() ==> answered(open, names[i], #[trigger] attempts[i])
    &&& forall|i: int|
        0 <= i < attempts.len() - 1 ==> verdict(object, #[trigger] attempts[i]) == Ok::<bool, u32>(
            false,
        )
    &&& if attempts.len() > 0 && verdict(object, attempts.last()) != Ok::<bool, u32>(false) {
        outcome == verdict(object, attempts.last())
    } else {
        attempts.len() == names.len() && outcome == Ok::<bool, u32>(false)
    }
}

/// Whether `needle` stands in `hay` at the place `at`, counted in
/// characters.
pub open spec fn occurs_at(hay: Seq<char>, needle: Seq<char>, at: int) -> bool {
    0 <= at && at + needle.len() <= hay.len() && hay.subrange(at, at + needle.len()) == needle
}

/// Whether `needle` stands somewhere in `hay`.
pub open spec fn occurs_in(hay: Seq<char>, needle: Seq<char>) -> bool {
    exists|at: int| occurs_at(hay, needle, at)
}

/// Whether some title contains some unwanted text.
pub open spec fn any_title_contains(titles: Set<Seq<char>>, unwanted: Set<Seq<char>>) -> bool {
    exists|title: Seq<char>, text: Seq<char>|
        titles.contains(title) && unwanted.contains(text) && occurs_in(title, text)
}

/// `str::find`, for a pattern that is a text: where `needle` stands first
/// in `hay`, as the number of bytes of `hay` in UTF-8 before it; `None` if
/// it stands nowhere.
#[verifier::external_body]
fn str_find(hay: &str, needle: &str) -> (place: Option<usize>)
    ensures
        place is Some <==> occurs_in(hay@, needle@),
        place matches Some(bytes) ==> exists|at: int|
            occurs_at(hay@, needle@, at) && (forall|before: int|
                0 <= before < at ==> !occurs_at(hay@, needle@, before)) && bytes
                == vstd::utf8::encode_utf8(hay@.take(at)).len(),
{
    hay.find(needle)
}

/// The first of `verdicts` other than "not there"; "not there" if there is
/// none.
pub open spec fn first_decisive(verdicts: Seq<Result<bool, u32>>) -> Result<bool, u32>
    decreases verdicts.len(),
{
    if verdicts.len() == 0 {
        Ok(false)
    } else if verdicts[0] != Ok::<bool, u32>(false) {
        verdicts[0]
    } else {
        first_decisive(verdicts.drop_first())
    }
}

/// Whether a process with an unwanted name is running: whether `unwanted`
/// and the names of the running processes have a name in common. Fails if
/// the processes could not be enumerated, unless `unwanted` is empty.
pub fn is_any_unwanted_process_running(unwanted: &NameSet, listing: &ProcessListing) -> (outcome:
    Result<bool, u32>)
    requires
        listing.readable(),
    ensures
        unwanted@.len() == 0 ==> outcome == Ok::<bool, u32>(false),
        unwanted@.len() != 0 ==> outcome == match listing.names() {
            Ok(running) => Ok::<bool, u32>(!unwanted@.disjoint(running)),
            Err(code) => Err(code),
        },
{
    if unwanted.len() == 0 {
        return Ok(false);
    }
    match get_processes_names(listing) {
        Ok(running) => Ok(!unwanted.is_disjoint(&running)),
        Err(code) => Err(code),
    }
}

/// Whether a top-level window with an unwanted title is there: whether
/// the title of some window contains some text of `unwanted`. Fails if the
/// windows could not be enumerated, unless `unwanted` is empty.
pub fn is_any_unwanted_top_window_existent(unwanted: &NameSet, listing: &WindowListing) -> (outcome:
    Result<bool, u32>)
    requires
        listing.readable(),
    ensures
        unwanted@.len() == 0 ==> outcome == Ok::<bool, u32>(false),
        unwanted@.len() != 0 ==> outcome == match listing.titles() {
            Ok(titles) => Ok::<bool, u32>(any_title_contains(titles, unwanted@)),
            Err(code) => Err(code),
        },
{
    if unwanted.len() == 0 {
        return Ok(false);
    }
    let titles = match get_top_window_names(listing) {
        Ok(titles) => titles,
        Err(code) => {
            return Err(code);
        },
    };
    let all_titles = titles.names();
    let all_unwanted = unwanted.names();
    let mut i: usize = 0;
    while i < all_titles.len()
        invariant
            i <= all_titles.len(),
            unwanted@.len() != 0,
            listing.titles() == Ok::<Set<Seq<char>>, u32>(titles@),
            all_titles.deep_view() == titles.order(),
            all_unwanted.deep_view() == unwanted.order(),
            forall|a: int, b: int|
                0 <= a < i && 0 <= b < all_unwanted.len() ==> !occurs_in(
                    #[trigger] titles.order()[a],
                    #[trigger] unwanted.order()[b],
                ),
        decreases all_titles.len() - i,
    {
        let mut j: usize = 0;
        while j < all_unwanted.len()
            invariant
                i < all_titles.len(),
                j <= all_unwanted.len(),
                unwanted@.len() != 0,
                listing.titles() == Ok::<Set<Seq<char>>, u32>(titles@),
                all_titles.deep_view() == titles.order(),
                all_unwanted.deep_view() == unwanted.order(),
                forall|b: int|
                    0 <= b < j ==> !occurs_in(titles.order()[i as int], #[trigger] unwanted.order()[b]),
            decreases all_unwanted.len() - j,
        {
            assert(all_titles[i as int]@ == titles.order()[i as int]);
            assert(all_unwanted[j as int]@ == unwanted.order()[j as int]);
            if str_find(all_titles[i].as_str(), all_unwanted[j].as_str()).is_some() {
                assert(titles@.contains(titles.order()[i as int]));
                assert(unwanted@.contains(unwanted.order()[j as int]));
                assert(any_title_contains(titles@, unwanted@));
                return Ok(true);
            }
            j += 1;
        }
        i += 1;
    }
    proof {
        assert(!any_title_contains(titles@, unwanted@)) by {
            if any_title_contains(titles@, unwanted@) {
                let (title, text) = choose|title: Seq<char>, text: Seq<char>|
                    titles@.contains(title) && unwanted@.contains(text) && occurs_in(title, text);
                let a = choose|a: int| 0 <= a < titles.order().len() && titles.order()[a] == title;
                let b = choose|b: int|
                    0 <= b < unwanted.order().len() && unwanted.order()[b] == text;
                assert(!occurs_in(titles.order()[a], unwanted.order()[b]));
            }
        }
    }
    Ok(false)
}

/// What an attempt to open an object of kind `object` tells.
pub fn verdict_of(object: Object, attempt: OpenAttempt) -> (outcome: Result<bool, u32>)
    ensures
        outcome == verdict(object, attempt),
{
    match object {
        Object::Mutant => {
            if attempt.handle != 0 {
                Ok(true)
            } else if attempt.last_error == ERROR_FILE_NOT_FOUND {
                Ok(false)
            } else {
                Err(attempt.last_error)
            }
        },
        Object::Symlink => Ok(attempt.handle != INVALID_HANDLE_VALUE),
    }
}

/// Asks `open` for the object `name` and tells what the answer means.
fn is_object_existent<F: Fn(&Vec<u16>) -> OpenAttempt>(object: Object, name: &String, open: &F) -> (found:
    (Result<bool, u32>, Ghost<OpenAttempt>))
    requires
        forall|wide: &Vec<u16>| open.requires((wide,)),
    ensures
        answered(open, name@, found.1@),
        found.0 == verdict(object, found.1@),
{
    let wide = object_name(name.as_str());
    let attempt = open(&wide);
    (verdict_of(object, attempt), Ghost(attempt))
}

/// Looks for the objects `names`, one after the other, until one is there
/// or an attempt fails.
fn is_any_object_existent<F: Fn(&Vec<u16>) -> OpenAttempt>(
    object: Object,
    names: &NameSet,
    open: &F,
) -> (outcome: Result<bool, u32>)
    requires
        forall|wide: &Vec<u16>| open.requires((wide,)),
    ensures
        exists|attempts: Seq<OpenAttempt>| searched(object, open, names.order(), attempts, outcome),
{
    let all = names.names();
    let ghost mut attempts: Seq<OpenAttempt> = Seq::empty();
    let mut i: usize = 0;
    while i < all.len()
        invariant
            i <= all.len(),
            all.deep_view() == names.order(),
            forall|wide: &Vec<u16>| open.requires((wide,)),
            attempts.len() == i,
            forall|k: int| 0 <= k < i ==> answered(open, names.order()[k], #[trigger] attempts[k]),
            forall|k: int|
                0 <= k < i ==> verdict(object, #[trigger] attempts[k]) == Ok::<bool, u32>(false),
        decreases all.len() - i,
    {
        assert(all[i as int]@ == names.order()[i as int]);
        let found = is_object_existent(object, &all[i], open);
        proof {
            attempts = attempts.push(found.1@);
        }
        match found.0 {
            Ok(false) => {},
            decisive => {
                assert(searched(object, open, names.order(), attempts, decisive));
                return decisive;
            },
        }
        i += 1;
    }
    assert(searched(object, open, names.order(), attempts, Ok::<bool, u32>(false)));
    Ok(false)
}

/// Whether the mutant `mutant_name` is there. `open` is handed the name as
/// the operating system takes it and makes the attempt to open the mutant.
/// That there is no such mutant is no failure.
pub fn is_mutant_existent<F: Fn(&Vec<u16>) -> OpenAttempt>(mutant_name: &String, open: &F) -> (outcome:
    Result<bool, u32>)
    requires
        forall|wide: &Vec<u16>| open.requires((wide,)),
    ensures
        exists|attempt: OpenAttempt|
            answered(open, mutant_name@, attempt) && outcome == mutant_verdict(attempt),
{
    is_object_existent(Object::Mutant, mutant_name, open).0
}

/// Whether one of the mutants `unwanted_mutant_names` is there. The names
/// are tried in order, up to the first mutant that is there or the first
/// attempt that fails.
pub fn is_any_unwanted_mutant_existent<F: Fn(&Vec<u16>) -> OpenAttempt>(
    unwanted_mutant_names: &NameSet,
    open: &F,
) -> (outcome: Result<bool, u32>)
    requires
        forall|wide: &Vec<u16>| open.requires((wide,)),
    ensures
        unwanted_mutant_names@.len() == 0 ==> outcome == Ok::<bool, u32>(false),
        exists|attempts: Seq<OpenAttempt>|
            searched(Object::Mutant, open, unwanted_mutant_names.order(), attempts, outcome),
{
    proof {
        use_type_invariant(unwanted_mutant_names);
        unwanted_mutant_names.lemma_len();
    }
    is_any_object_existent(Object::Mutant, unwanted_mutant_names, open)
}

/// Whether the object `symlink_name` can be opened as an existing file.
/// `open` is handed the name as the operating system takes it and makes the
/// attempt.
pub fn is_symlink_existent<F: Fn(&Vec<u16>) -> OpenAttempt>(symlink_name: &String, open: &F) -> (outcome:
    Result<bool, u32>)
    requires
        forall|wide: &Vec<u16>| open.requires((wide,)),
    ensures
        outcome is Ok,
        exists|attempt: OpenAttempt|
            answered(open, symlink_name@, attempt) && outcome == symlink_verdict(attempt),
{
    is_object_existent(Object::Symlink, symlink_name, open).0
}

/// Whether one of the objects `unwanted_symlink_names` can be opened as an
/// existing file. The names are tried in order, up to the first that can.
pub fn is_any_unwanted_symlink_existent<F: Fn(&Vec<u16>) -> OpenAttempt>(
    unwanted_symlink_names: &NameSet,
    open: &F,
) -> (outcome: Result<bool, u32>)
    requires
        forall|wide: &Vec<u16>| open.requires((wide,)),
    ensures
        outcome is Ok,
        unwanted_symlink_names@.len() == 0 ==> outcome == Ok::<bool, u32>(false),
        exists|attempts: Seq<OpenAttempt>|
            searched(Object::Symlink, open, unwanted_symlink_names.order(), attempts, outcome),
{
    proof {
        use_type_invariant(unwanted_symlink_names);
        unwanted_symlink_names.lemma_len();
    }
    is_any_object_existent(Object::Symlink, unwanted_symlink_names, open)
}

/// Containment has a direction: a text that stands in a longer one does
/// not contain it, and two texts that stand in each other are the same.
pub proof fn lemma_occurs_in_one_direction(hay: Seq<char>, needle: Seq<char>)
    requires
        occurs_in(hay, needle),
    ensures
        needle.len() <= hay.len(),
        needle.len() < hay.len() ==> !occurs_in(needle, hay),
        occurs_in(needle, hay) ==> needle == hay,
{
    let at = choose|at: int| occurs_at(hay, needle, at);
    assert(occurs_at(hay, needle, at));
    assert(needle.len() <= hay.len());
    if occurs_in(needle, hay) {
        let back = choose|back: int| occurs_at(needle, hay, back);
        assert(occurs_at(needle, hay, back));
        assert(hay.len() <= needle.len());
        assert(at == 0);
        assert(hay.subrange(0, hay.len() as int) == needle);
        assert(hay.subrange(0, hay.len() as int) =~= hay);
    }
}

/// Every text stands in itself, and the empty text stands in every text.
pub proof fn lemma_occurs_in_itself(text: Seq<char>)
    ensures
        occurs_in(text, text),
        occurs_in(text, Seq::<char>::empty()),
{
    assert(text.subrange(0, text.len() as int) =~= text);
    assert(occurs_at(text, text, 0));
    assert(text.subrange(0, 0) =~= Seq::<char>::empty());
    assert(occurs_at(text, Seq::<char>::empty(), 0));
}

proof fn lemma_first_decisive_skip(verdicts: Seq<Result<bool, u32>>, k: int)
    requires
        0 <= k <= verdicts.len(),
        forall|i: int| 0 <= i < k ==> verdicts[i] == Ok::<bool, u32>(false),
    ensures
        first_decisive(verdicts) == first_decisive(verdicts.skip(k)),
    decreases k,
{
    if k == 0 {
        assert(verdicts.skip(0) =~= verdicts);
    } else {
        let rest = verdicts.drop_first();
        assert forall|i: int| 0 <= i < k - 1 implies rest[i] == Ok::<bool, u32>(false) by {
            assert(rest[i] == verdicts[i + 1]);
        }
        lemma_first_decisive_skip(rest, k - 1);
        assert(rest.skip(k - 1) =~= verdicts.skip(k));
    }
}

/// Where the operating system has one answer for each name, a search
/// comes to the first verdict, in the order of the names, that is not "not
/// there", and to "not there" if there is none. Nothing is detected where
/// no name is given.
pub proof fn lemma_search_is_first_decisive<F: Fn(&Vec<u16>) -> OpenAttempt>(
    object: Object,
    open: &F,
    names: Seq<Seq<char>>,
    answers: spec_fn(Seq<char>) -> OpenAttempt,
    attempts: Seq<OpenAttempt>,
    outcome: Result<bool, u32>,
)
    requires
        forall|name: Seq<char>, attempt: OpenAttempt| #[trigger]
            answered(open, name, attempt) ==> attempt == answers(name),
        searched(object, open, names, attempts, outcome),
    ensures
        outcome == first_decisive(Seq::new(names.len(), |i: int| verdict(object, answers(names[i])))),
        names.len() == 0 ==> outcome == Ok::<bool, u32>(false),
{
    let verdicts = Seq::new(names.len(), |i: int| verdict(object, answers(names[i])));
    assert forall|i: int| 0 <= i < attempts.len() implies verdicts[i] == verdict(
        object,
        attempts[i],
    ) by {
        assert(answered(open, names[i], attempts[i]));
    }
    if attempts.len() > 0 && verdict(object, attempts.last()) != Ok::<bool, u32>(false) {
        let k = attempts.len() - 1;
        assert forall|i: int| 0 <= i < k implies verdicts[i] == Ok::<bool, u32>(false) by {
            assert(verdicts[i] == verdict(object, attempts[i]));
        }
        lemma_first_decisive_skip(verdicts, k);
        assert(verdicts.skip(k)[0] == verdicts[k]);
    } else {
        let k = attempts.len() as int;
        assert forall|i: int| 0 <= i < k implies verdicts[i] == Ok::<bool, u32>(false) by {
            assert(verdicts[i] == verdict(object, attempts[i]));
        }
        lemma_first_decisive_skip(verdicts, k);
        assert(verdicts.skip(k).len() == 0);
    }
}

} // verus!
