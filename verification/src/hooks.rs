//! The probe for hooked exports.
//!
//! An export of a module resolves to an address inside the range that the
//! module is mapped to. An export that resolves to an address outside that
//! range has been redirected. An export that the operating system hands on
//! to another module on purpose looks the same and is counted as
//! redirected too.

use crate::names::{ModuleEntry, ModuleExports};
use crate::wide::{module_file_name, module_suffix, utf16};
use vstd::prelude::*;

verus! {

/// What the host read of one module.
pub struct ModuleReading {
    /// The handle of the loaded module; zero if it could not be loaded.
    pub handle: usize,
    /// What the query for the module's range returned; zero if it failed.
    pub information: i32,
    /// The error code of the operating system after a failure.
    pub last_error: u32,
    /// The address at which the module is mapped.
    pub base: usize,
    /// The size of the mapped module in bytes.
    pub size: u32,
    /// The address that each of the exports asked about resolves to, in
    /// order; zero for an export that does not resolve.
    pub addresses: Vec<usize>,
}

/// Whether `address` lies in the range of `size` bytes from `base`.
pub open spec fn inside(base: usize, size: u32, address: usize) -> bool {
    base <= address < base + size
}

/// Whether an export that resolves to `address` has been redirected out of
/// the module that is mapped at `base` with `size` bytes. An export that
/// does not resolve is passed over.
pub open spec fn redirected(base: usize, size: u32, address: usize) -> bool {
    address != 0 && !inside(base, size, address)
}

impl ModuleReading {
    /// Whether the module was loaded and its range read.
    pub open spec fn complete(&self) -> bool {
        self.handle != 0 && self.information != 0
    }

    /// What the reading tells: whether one of the exports has been
    /// redirected, or the error code if the module could not be loaded or
    /// its range not read.
    pub open spec fn verdict(&self) -> Result<bool, u32> {
        if self.complete() {
            Ok(
                exists|i: int|
                    0 <= i < self.addresses.len() && redirected(
                        self.base,
                        self.size,
                        #[trigger] self.addresses[i],
                    ),
            )
        } else {
            Err(self.last_error)
        }
    }

    /// What the reading tells.
    pub fn hooked(&self) -> (outcome: Result<bool, u32>)
        ensures
            outcome == self.verdict(),
    {
        if self.handle == 0 || self.information == 0 {
            return Err(self.last_error);
        }
        let mut i: usize = 0;
        while i < self.addresses.len()
            invariant
                i <= self.addresses.len(),
                self.complete(),
                forall|k: int|
                    0 <= k < i ==> !redirected(self.base, self.size, #[trigger] self.addresses[k]),
            decreases self.addresses.len() - i,
        {
            let address = self.addresses[i];
            if address != 0 {
                if address < self.base || address - self.base >= self.size as usize {
                    assert(redirected(self.base, self.size, self.addresses[i as int]));
                    return Ok(true);
                }
            }
            i += 1;
        }
        Ok(false)
    }
}

/// Whether `reading` can be what `inspect` answers when it is asked about
/// the exports `exports` of the module `module`: `inspect` is handed the
/// UTF-16 encoding of the module's name, followed by that of `.dll` and
/// closed by a zero, and the names of the exports.
pub open spec fn inspected<F: Fn(&Vec<u16>, &Vec<String>) -> ModuleReading>(
    inspect: &F,
    module: Seq<char>,
    exports: Seq<Seq<char>>,
    reading: ModuleReading,
) -> bool {
    exists|wide: Vec<u16>, names: Vec<String>|
        wide@ == (utf16(module) + module_suffix()).push(0u16) && names.deep_view() == exports
            && inspect.ensures((&wide, &names), reading)
}

/// Whether `outcome` is what the examination of `modules`, in order, comes
/// to when `readings` are the answers it got. The examination takes one
/// module after the other and stops at the first verdict other than "not
/// hooked", which is its outcome; if there is none, every module was
/// examined, and the outcome is "not hooked".
pub open spec fn examined<F: Fn(&Vec<u16>, &Vec<String>) -> ModuleReading>(
    inspect: &F,
    modules: Seq<(Seq<char>, Seq<Seq<char>>)>,
    readings: Seq<ModuleReading>,
    outcome: Result<bool, u32>,
) -> bool {
    &&& readings.len() <= modules.len()
    &&& forall|i: int|
        0 <= i < readings.len() ==> inspected(
            inspect,
            modules[i].0,
            modules[i].1,
            #[trigger] readings[i],
        )
    &&& forall|i: int|
        0 <= i < readings.len() - 1 ==> (#[trigger] readings[i]).verdict() == Ok::<bool, u32>(false)
    &&& if readings.len() > 0 && readings.last().verdict() != Ok::<bool, u32>(false) {
        outcome == readings.last().verdict()
    } else {
        readings.len() == modules.len() && outcome == Ok::<bool, u32>(false)
    }
}

fn examine<F: Fn(&Vec<u16>, &Vec<String>) -> ModuleReading>(
    module_name: &String,
    module_apis: &Vec<String>,
    inspect: &F,
) -> (found: (Result<bool, u32>, Ghost<ModuleReading>))
    requires
        forall|wide: &Vec<u16>, names: &Vec<String>| inspect.requires((wide, names)),
    ensures
        inspected(inspect, module_name@, module_apis.deep_view(), found.1@),
        found.0 == found.1@.verdict(),
{
    let wide = module_file_name(module_name.as_str());
    let reading = inspect(&wide, module_apis);
    (reading.hooked(), Ghost(reading))
}

/// Whether one of the exports `module_apis` of the module `module_name`
/// has been redirected out of the module. `inspect` is handed the file name
/// of the module as the operating system takes it and the names of the
/// exports; it loads the module, reads its range and resolves the exports.
/// Fails if the module could not be loaded or its range not read.
pub fn is_any_api_hooked<F: Fn(&Vec<u16>, &Vec<String>) -> ModuleReading>(
    module_name: &String,
    module_apis: &Vec<String>,
    inspect: &F,
) -> (outcome: Result<bool, u32>)
    requires
        forall|wide: &Vec<u16>, names: &Vec<String>| inspect.requires((wide, names)),
    ensures
        exists|reading: ModuleReading|
            inspected(inspect, module_name@, module_apis.deep_view(), reading) && outcome
                == reading.verdict(),
{
    examine(module_name, module_apis, inspect).0
}

/// Whether one of the exports in `mod_apis` has been redirected out of its
/// module. The modules are examined in order, up to the first with a
/// redirected export or the first that cannot be examined.
pub fn is_any_module_hooked<F: Fn(&Vec<u16>, &Vec<String>) -> ModuleReading>(
    mod_apis: &ModuleExports,
    inspect: &F,
) -> (outcome: Result<bool, u32>)
    requires
        forall|wide: &Vec<u16>, names: &Vec<String>| inspect.requires((wide, names)),
    ensures
        mod_apis@.len() == 0 ==> outcome == Ok::<bool, u32>(false),
        exists|readings: Seq<ModuleReading>| examined(inspect, mod_apis@, readings, outcome),
{
    let all = mod_apis.entries();
    let ghost mut readings: Seq<ModuleReading> = Seq::empty();
    let mut i: usize = 0;
    while i < all.len()
        invariant
            i <= all.len(),
            all.deep_view() == mod_apis@,
            forall|wide: &Vec<u16>, names: &Vec<String>| inspect.requires((wide, names)),
            readings.len() == i,
            forall|k: int|
                0 <= k < i ==> inspected(
                    inspect,
                    mod_apis@[k].0,
                    mod_apis@[k].1,
                    #[trigger] readings[k],
                ),
            forall|k: int| 0 <= k < i ==> (#[trigger] readings[k]).verdict() == Ok::<bool, u32>(false),
        decreases all.len() - i,
    {
        assert(all[i as int].deep_view() == mod_apis@[i as int]);
        let found = examine(&all[i].module, &all[i].exports, inspect);
        proof {
            readings = readings.push(found.1@);
        }
        match found.0 {
            Ok(false) => {},
            decisive => {
                assert(examined(inspect, mod_apis@, readings, decisive));
                return decisive;
            },
        }
        i += 1;
    }
    assert(examined(inspect, mod_apis@, readings, Ok::<bool, u32>(false)));
    Ok(false)
}

/// An export that resolves to an address inside its module is never taken
/// as redirected, and one that resolves to an address outside always is:
/// a module that was read completely is reported as hooked exactly if one
/// of the exports resolves, and to an address outside the module's range.
pub proof fn lemma_hooked_iff_outside(reading: ModuleReading)
    requires
        reading.complete(),
    ensures
        (forall|i: int|
            0 <= i < reading.addresses.len() ==> reading.addresses[i] == 0 || inside(
                reading.base,
                reading.size,
                #[trigger] reading.addresses[i],
            )) ==> reading.verdict() == Ok::<bool, u32>(false),
        (exists|i: int|
            0 <= i < reading.addresses.len() && reading.addresses[i] != 0 && !inside(
                reading.base,
                reading.size,
                #[trigger] reading.addresses[i],
            )) ==> reading.verdict() == Ok::<bool, u32>(true),
{
}

} // verus!
