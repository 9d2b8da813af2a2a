use vstd::prelude::*;

verus! {

/// A secret as the tray menu shows it.
#[derive(Clone, Debug)]
pub struct TraySecret {
    pub id: String,
    pub name: String,
    pub secret_type: String,
}

/// The status line that the tray shows.
pub fn get_vault_status() -> (r: &'static str)
    ensures
        r@ == "Ready"@,
{
    "Ready"
}

} // verus!
