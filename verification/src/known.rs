//! The functions and DLLs that count, name by name.
use crate::classify::CORE_DLLS;
use crate::imports::{creates_window, serves, SERVICE_FUNCS, WINDOW_CREATE_FUNCS};
use crate::text::listed;
use vstd::prelude::*;

verus! {

/// `name` is that of a function of `user32.dll` that puts a window on the screen.
pub open spec fn is_window_function(name: Seq<char>) -> bool {
    ||| name == "CreateWindowExA"@
    ||| name == "CreateWindowExW"@
    ||| name == "RegisterClassA"@
    ||| name == "RegisterClassW"@
    ||| name == "RegisterClassExA"@
    ||| name == "RegisterClassExW"@
    ||| name == "DialogBoxParamA"@
    ||| name == "DialogBoxParamW"@
    ||| name == "DialogBoxIndirectParamA"@
    ||| name == "DialogBoxIndirectParamW"@
    ||| name == "CreateDialogParamA"@
    ||| name == "CreateDialogParamW"@
    ||| name == "MessageBoxA"@
    ||| name == "MessageBoxW"@
    ||| name == "MessageBoxExA"@
    ||| name == "MessageBoxExW"@
    ||| name == "PropertySheetA"@
    ||| name == "PropertySheetW"@
}

/// `name` is that of a function by which a program runs as a Windows service.
pub open spec fn is_service_function(name: Seq<char>) -> bool {
    ||| name == "StartServiceCtrlDispatcherW"@
    ||| name == "StartServiceCtrlDispatcherA"@
    ||| name == "RegisterServiceCtrlHandlerW"@
    ||| name == "RegisterServiceCtrlHandlerA"@
    ||| name == "RegisterServiceCtrlHandlerExW"@
    ||| name == "RegisterServiceCtrlHandlerExA"@
}

/// `name` is that of a DLL of Windows itself.
pub open spec fn is_core_dll(name: Seq<char>) -> bool {
    ||| name == "kernel32.dll"@
    ||| name == "user32.dll"@
    ||| name == "gdi32.dll"@
    ||| name == "advapi32.dll"@
    ||| name == "shell32.dll"@
    ||| name == "ole32.dll"@
    ||| name == "oleaut32.dll"@
    ||| name == "comctl32.dll"@
    ||| name == "comdlg32.dll"@
    ||| name == "ws2_32.dll"@
    ||| name == "winhttp.dll"@
    ||| name == "wininet.dll"@
    ||| name == "ntdll.dll"@
    ||| name == "msvcrt.dll"@
    ||| name == "crypt32.dll"@
    ||| name == "shlwapi.dll"@
    ||| name == "version.dll"@
}

/// The functions that create windows are just those.
pub proof fn law_window_function_names(name: Seq<char>)
    ensures
        listed(WINDOW_CREATE_FUNCS@, name) <==> is_window_function(name),
{
    let list = WINDOW_CREATE_FUNCS@;
    assert(list.len() == 18);
    assert(list[0]@ == "CreateWindowExA"@);
    assert(list[1]@ == "CreateWindowExW"@);
    assert(list[2]@ == "RegisterClassA"@);
    assert(list[3]@ == "RegisterClassW"@);
    assert(list[4]@ == "RegisterClassExA"@);
    assert(list[5]@ == "RegisterClassExW"@);
    assert(list[6]@ == "DialogBoxParamA"@);
    assert(list[7]@ == "DialogBoxParamW"@);
    assert(list[8]@ == "DialogBoxIndirectParamA"@);
    assert(list[9]@ == "DialogBoxIndirectParamW"@);
    assert(list[10]@ == "CreateDialogParamA"@);
    assert(list[11]@ == "CreateDialogParamW"@);
    assert(list[12]@ == "MessageBoxA"@);
    assert(list[13]@ == "MessageBoxW"@);
    assert(list[14]@ == "MessageBoxExA"@);
    assert(list[15]@ == "MessageBoxExW"@);
    assert(list[16]@ == "PropertySheetA"@);
    assert(list[17]@ == "PropertySheetW"@);
}

/// The functions of a service are just those.
pub proof fn law_service_function_names(name: Seq<char>)
    ensures
        listed(SERVICE_FUNCS@, name) <==> is_service_function(name),
        serves(name) <==> is_service_function(name),
{
    let list = SERVICE_FUNCS@;
    assert(list.len() == 6);
    assert(list[0]@ == "StartServiceCtrlDispatcherW"@);
    assert(list[1]@ == "StartServiceCtrlDispatcherA"@);
    assert(list[2]@ == "RegisterServiceCtrlHandlerW"@);
    assert(list[3]@ == "RegisterServiceCtrlHandlerA"@);
    assert(list[4]@ == "RegisterServiceCtrlHandlerExW"@);
    assert(list[5]@ == "RegisterServiceCtrlHandlerExA"@);
}

/// The core DLLs are just those.
pub proof fn law_core_dll_names(name: Seq<char>)
    ensures
        listed(CORE_DLLS@, name) <==> is_core_dll(name),
{
    let list = CORE_DLLS@;
    assert(list.len() == 17);
    assert(list[0]@ == "kernel32.dll"@);
    assert(list[1]@ == "user32.dll"@);
    assert(list[2]@ == "gdi32.dll"@);
    assert(list[3]@ == "advapi32.dll"@);
    assert(list[4]@ == "shell32.dll"@);
    assert(list[5]@ == "ole32.dll"@);
    assert(list[6]@ == "oleaut32.dll"@);
    assert(list[7]@ == "comctl32.dll"@);
    assert(list[8]@ == "comdlg32.dll"@);
    assert(list[9]@ == "ws2_32.dll"@);
    assert(list[10]@ == "winhttp.dll"@);
    assert(list[11]@ == "wininet.dll"@);
    assert(list[12]@ == "ntdll.dll"@);
    assert(list[13]@ == "msvcrt.dll"@);
    assert(list[14]@ == "crypt32.dll"@);
    assert(list[15]@ == "shlwapi.dll"@);
    assert(list[16]@ == "version.dll"@);
}

/// An import creates a window exactly where it is one of those functions from `user32.dll`.
pub proof fn law_window_imports(dll: Seq<char>, name: Seq<char>)
    ensures
        creates_window(dll, name) <==> dll == "user32.dll"@ && is_window_function(name),
{
    law_window_function_names(name);
}

} // verus!
