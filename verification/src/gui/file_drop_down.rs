//! The "File" menu of the top bar.

use vstd::prelude::*;

verus! {

pub struct FileDropDown {}

impl FileDropDown {
    pub fn new() -> (menu: FileDropDown)
        ensures
            menu == (FileDropDown {}),
    {
        FileDropDown {}
    }
}

} // verus!
