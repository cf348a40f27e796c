//! Access a container gets to a device.

use vstd::prelude::*;

verus! {

/// What the cgroup of a container allows it to do with a device.
#[derive(Clone, Copy, Debug, PartialEq, Eq, Structural)]
pub struct DevicePermissions {
    pub read: bool,
    pub write: bool,
    pub mknod: bool,
}

/// `letter` where `granted` holds, nothing where it does not.
pub open spec fn letter_if(granted: bool, letter: char) -> Seq<char> {
    if granted {
        seq![letter]
    } else {
        seq![]
    }
}

impl DevicePermissions {
    /// One letter for each permission that is granted: `r`, `w` and `m`, in
    /// this order.
    pub open spec fn text(self) -> Seq<char> {
        letter_if(self.read, 'r') + letter_if(self.write, 'w') + letter_if(self.mknod, 'm')
    }

    /// Reading and writing, but no making of device nodes.
    pub fn rdwr() -> (r: DevicePermissions)
        ensures
            r == (DevicePermissions { read: true, write: true, mknod: false }),
    {
        DevicePermissions { read: true, write: true, mknod: false }
    }

    /// The letters of the permissions that are granted.
    pub fn as_str(&self) -> (r: &'static str)
        ensures
            r@ == self.text(),
    {
        proof {
            reveal_strlit("rwm");
            reveal_strlit("rw");
            reveal_strlit("rm");
            reveal_strlit("r");
            reveal_strlit("wm");
            reveal_strlit("w");
            reveal_strlit("m");
            reveal_strlit("");
        }
        match (self.read, self.write, self.mknod) {
            (true, true, true) => "rwm",
            (true, true, false) => "rw",
            (true, false, true) => "rm",
            (true, false, false) => "r",
            (false, true, true) => "wm",
            (false, true, false) => "w",
            (false, false, true) => "m",
            (false, false, false) => "",
        }
    }

    /// The letters of the permissions that are granted, as owned text.
    pub fn to_string(&self) -> (r: String)
        ensures
            r@ == self.text(),
    {
        String::from_str(self.as_str())
    }
}

/// Different permissions are written differently.
pub proof fn permissions_text_is_injective(a: DevicePermissions, b: DevicePermissions)
    ensures
        a.text() == b.text() ==> a == b,
{
    if a.text() == b.text() {
        assert(a.text().len() == b.text().len());
        if a.text().len() > 0 {
            assert(a.text()[0] == b.text()[0]);
        }
        if a.text().len() > 1 {
            assert(a.text()[1] == b.text()[1]);
        }
    }
}

/// The text of permissions holds `r` exactly when reading is granted, `w` exactly
/// when writing is, `m` exactly when making device nodes is, and no other letter;
/// each letter once, in this order.
pub proof fn letters_are_the_permissions(permissions: DevicePermissions)
    ensures
        permissions.text().contains('r') <==> permissions.read,
        permissions.text().contains('w') <==> permissions.write,
        permissions.text().contains('m') <==> permissions.mknod,
        forall|i: int|
            0 <= i < permissions.text().len() ==> (#[trigger] permissions.text()[i] == 'r'
                || permissions.text()[i] == 'w' || permissions.text()[i] == 'm'),
        permissions.text().no_duplicates(),
        forall|i: int|
            0 < i < permissions.text().len() ==> #[trigger] permissions.text()[i] != 'r',
        forall|i: int|
            0 <= i < permissions.text().len() - 1 ==> #[trigger] permissions.text()[i] != 'm',
{
    let text = permissions.text();
    let w: int = if permissions.read {
        1
    } else {
        0
    };
    let m: int = if permissions.write {
        w + 1
    } else {
        w
    };
    assert(permissions.read ==> text[0] == 'r');
    assert(permissions.write ==> text[w] == 'w');
    assert(permissions.mknod ==> text[m] == 'm');
}

} // verus!
