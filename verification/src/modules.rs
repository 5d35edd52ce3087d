//! The modules loaded in a process, and the scan of one module's image.

use vstd::prelude::*;
use crate::error::MemoryError;
use crate::process::Process;
use crate::region::address_space_end;
use crate::scanner::is_refusal;
use crate::signature::{Cell, Signature, is_first_match, no_match};
use crate::syntax::parse_text;
use crate::text::{narrow, same_text, wchar_to_string};

verus! {

/// One module of a snapshot of the modules loaded in a process.
#[derive(Debug)]
pub struct Module {
    pub base_address: u64,
    /// The size of the module's image in bytes.
    pub size: u64,
    pub name: String,
    pub path: String,
}

impl Module {
    /// Builds the module of one entry of a module snapshot, whose name and
    /// path are zero-terminated wide strings.
    pub fn from_wide(base_address: u64, size: u64, name: &[u16], path: &[u16]) -> (module: Module)
        ensures
            module.base_address == base_address,
            module.size == size,
            module.name@ == narrow(name@),
            module.path@ == narrow(path@),
    {
        Module { base_address, size, name: wchar_to_string(name), path: wchar_to_string(path) }
    }

    /// One past the last address of the module's image, or the end of the
    /// address space where the image would reach beyond it.
    pub open spec fn image_end(&self) -> int {
        if self.base_address + self.size <= address_space_end() {
            self.base_address + self.size
        } else {
            address_space_end()
        }
    }
}

/// One entry of a snapshot of the modules of a process, as the operating
/// system lists it.
#[derive(Debug)]
pub struct ModuleEntry {
    pub base_address: u64,
    pub size: u32,
    /// The name of the module, as a zero-terminated wide string.
    pub module: Vec<u16>,
    /// The path of the module's file, as a zero-terminated wide string.
    pub exe_path: Vec<u16>,
}

impl ModuleEntry {
    /// `module` is the module of this entry.
    pub open spec fn describes(&self, module: Module) -> bool {
        &&& module.base_address == self.base_address
        &&& module.size == self.size
        &&& module.name@ == narrow(self.module@)
        &&& module.path@ == narrow(self.exe_path@)
    }
}

/// The modules of a snapshot, one for each entry and in the order of the
/// entries. A snapshot without entries, as that of a process that has
/// exited, has no modules.
pub fn get_process_modules(entries: &Vec<ModuleEntry>) -> (modules: Vec<Module>)
    ensures
        modules@.len() == entries@.len(),
        forall|i: int| 0 <= i < entries@.len() ==> (#[trigger] entries@[i]).describes(modules@[i]),
{
    let mut modules: Vec<Module> = Vec::new();
    let mut index: usize = 0;
    while index < entries.len()
        invariant
            index <= entries@.len(),
            modules@.len() == index,
            forall|i: int| 0 <= i < index ==> (#[trigger] entries@[i]).describes(modules@[i]),
        decreases entries@.len() - index,
    {
        let entry = &entries[index];
        modules.push(
            Module::from_wide(
                entry.base_address,
                entry.size as u64,
                entry.module.as_slice(),
                entry.exe_path.as_slice(),
            ),
        );
        index += 1;
    }
    modules
}

/// The module at `index` is the first of `modules` with the name `name`.
pub open spec fn is_first_named(modules: Seq<Module>, name: Seq<char>, index: int) -> bool {
    &&& 0 <= index < modules.len()
    &&& modules[index].name@ == name
    &&& forall|j: int| 0 <= j < index ==> (#[trigger] modules[j]).name@ != name
}

/// No module of `modules` has the name `name`.
pub open spec fn none_named(modules: Seq<Module>, name: Seq<char>) -> bool {
    forall|j: int| 0 <= j < modules.len() ==> (#[trigger] modules[j]).name@ != name
}

/// Finds the first module with the name `name`. Names are compared exactly,
/// letter case included.
pub fn find_module(modules: &Vec<Module>, name: &str) -> (found: Option<usize>)
    ensures
        match found {
            Some(index) => is_first_named(modules@, name@, index as int),
            None => none_named(modules@, name@),
        },
{
    let mut index: usize = 0;
    while index < modules.len()
        invariant
            index <= modules@.len(),
            forall|j: int| 0 <= j < index ==> (#[trigger] modules@[j]).name@ != name@,
        decreases modules@.len() - index,
    {
        if same_text(modules[index].name.as_str(), name) {
            return Some(index);
        }
        index += 1;
    }
    None
}

/// `found` is the address of the first match of `pattern` in an image that
/// stands at `base_address`, or nothing where the image holds no match.
pub open spec fn is_image_scan_result(
    pattern: Seq<Cell>,
    base_address: u64,
    image: Seq<u8>,
    found: Option<u64>,
) -> bool {
    match found {
        Some(hit) => base_address <= hit && is_first_match(pattern, image, hit - base_address),
        None => no_match(pattern, image),
    }
}

/// Scans the bytes of an image that was read at `base_address` and returns
/// the address of the first match.
pub fn scan_image(signature: &Signature, base_address: u64, image: &[u8]) -> (found: Option<u64>)
    requires
        base_address + image@.len() <= address_space_end(),
    ensures
        is_image_scan_result(signature@, base_address, image@, found),
{
    match signature.scan(image) {
        Some(offset) => Some(base_address + offset),
        None => None,
    }
}

/// The scan of one module, planned: what to look for, and which bytes to read.
#[derive(Debug)]
pub struct ModuleScan {
    pub signature: Signature,
    /// Where the image of the module begins.
    pub address: u64,
    /// How many bytes of the image to read: all that lie inside the address
    /// space.
    pub length: u64,
}

impl ModuleScan {
    /// Plans the scan of the module of `process` named `module_name` for the
    /// signature `pattern`.
    ///
    /// A process whose handle was never opened, or was released, is refused
    /// with [`MemoryError::InvalidHandle`], whatever else is asked. On a
    /// usable handle, where no module has that name there is nothing to
    /// scan, which is no error, whatever `pattern` holds. Where a module has
    /// it, `pattern` is refused with [`MemoryError::Parse`] if it is no
    /// signature text.
    pub fn begin(
        process: &Process,
        modules: &Vec<Module>,
        pattern: &str,
        module_name: &str,
    ) -> (plan: Result<Option<ModuleScan>, MemoryError>)
        ensures
            process.usable() && none_named(modules@, module_name@) ==> plan matches Ok(None),
            match plan {
                Ok(Some(scan)) => {
                    &&& process.usable()
                    &&& exists|index: int|
                        is_first_named(modules@, module_name@, index) && scan.address
                            == modules@[index].base_address && scan.address + scan.length
                            == modules@[index].image_end()
                    &&& parse_text(pattern@) == Some(scan.signature@)
                },
                Ok(None) => process.usable() && none_named(modules@, module_name@),
                Err(error) => {
                    &&& is_refusal(process, pattern@, error)
                    &&& process.usable() ==> !none_named(modules@, module_name@)
                },
            },
    {
        if let Err(error) = process.raw_handle() {
            return Err(error);
        }
        let index: usize = match find_module(modules, module_name) {
            Some(index) => index,
            None => {
                return Ok(None);
            },
        };
        let signature: Signature = match Signature::new(pattern) {
            Ok(signature) => signature,
            Err(error) => {
                return Err(error);
            },
        };
        let address: u64 = modules[index].base_address;
        let size: u64 = modules[index].size;
        let length: u64 = if size == 0 || size - 1 <= u64::MAX - address {
            size
        } else {
            u64::MAX - address + 1
        };
        Ok(Some(ModuleScan { signature, address, length }))
    }

    /// Scans the bytes that were read for the plan and returns the address
    /// of the first match in them.
    pub fn finish(&self, image: &[u8]) -> (found: Option<u64>)
        requires
            self.address + image@.len() <= address_space_end(),
        ensures
            is_image_scan_result(self.signature@, self.address, image@, found),
    {
        scan_image(&self.signature, self.address, image)
    }
}

} // verus!
