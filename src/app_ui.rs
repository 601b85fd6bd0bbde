use vstd::prelude::*;

verus! {

/// The settings window as a mathematical value: whether it exists, the
/// output devices it lists and the device it shows as current.
pub struct WindowModel {
    pub open: bool,
    pub devices: Seq<Seq<char>>,
    pub current_device: Option<Seq<char>>,
}

/// The settings window. It is created on first show; updates that arrive
/// while it does not exist are dropped. The host renders what it holds.
pub struct JAppUI {
    open: bool,
    devices: Vec<String>,
    current_device: Option<String>,
}

pub open spec fn strings_view(v: Seq<String>) -> Seq<Seq<char>> {
    v.map_values(|s: String| s@)
}

impl View for JAppUI {
    type V = WindowModel;

    closed spec fn view(&self) -> WindowModel {
        WindowModel {
            open: self.open,
            devices: strings_view(self.devices@),
            current_device: match self.current_device {
                Some(d) => Some(d@),
                None => None,
            },
        }
    }
}

impl JAppUI {
    pub fn new() -> (r: Self)
        ensures
            r@ == (WindowModel { open: false, devices: Seq::empty(), current_device: None }),
    {
        let r = JAppUI { open: false, devices: Vec::new(), current_device: None };
        assert(strings_view(r.devices@) =~= Seq::<Seq<char>>::empty());
        r
    }

    /// Shows the window, creating it the first time. Returns whether it was
    /// created by this call.
    pub fn show(&mut self) -> (r: bool)
        ensures
            r == !old(self)@.open,
            final(self)@ == (WindowModel { open: true, ..old(self)@ }),
    {
        let created = !self.open;
        self.open = true;
        created
    }

    /// Lists `devices` in the window, when it exists.
    pub fn set_devices(&mut self, devices: &[String])
        ensures
            old(self)@.open ==> final(self)@ == (WindowModel {
                devices: strings_view(devices@),
                ..old(self)@
            }),
            !old(self)@.open ==> final(self)@ == old(self)@,
    {
        if self.open {
            let mut v: Vec<String> = Vec::new();
            let mut i: usize = 0;
            while i < devices.len()
                invariant
                    i <= devices@.len(),
                    strings_view(v@) == strings_view(devices@.take(i as int)),
                decreases devices.len() - i,
            {
                let s = devices[i].clone();
                let ghost before = v@;
                v.push(s);
                assert(devices@.take(i + 1) =~= devices@.take(i as int).push(devices@[i as int]));
                assert(strings_view(v@) =~= strings_view(before).push(s@));
                assert(strings_view(devices@.take(i + 1)) =~= strings_view(devices@.take(i as int)).push(devices@[i as int]@));
                i = i + 1;
            }
            assert(devices@.take(i as int) =~= devices@);
            self.devices = v;
        }
    }

    /// Shows `device` as the current output device, when the window exists.
    pub fn set_current_device(&mut self, device: &String)
        ensures
            old(self)@.open ==> final(self)@ == (WindowModel {
                current_device: Some(device@),
                ..old(self)@
            }),
            !old(self)@.open ==> final(self)@ == old(self)@,
    {
        if self.open {
            self.current_device = Some(device.clone());
        }
    }

    /// Whether the window exists.
    pub fn is_open(&self) -> (r: bool)
        ensures
            r == self@.open,
    {
        self.open
    }

    /// The devices the window lists.
    pub fn devices(&self) -> (r: &Vec<String>)
        ensures
            strings_view(r@) == self@.devices,
    {
        &self.devices
    }

    /// The device the window shows as current.
    pub fn current_device(&self) -> (r: Option<&String>)
        ensures
            match r {
                Some(d) => self@.current_device == Some(d@),
                None => self@.current_device is None,
            },
    {
        match &self.current_device {
            Some(d) => Some(d),
            None => None,
        }
    }
}

} // verus!
