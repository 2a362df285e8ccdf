//! Device configuration: credentials and identifiers, read often and replaced field
//! by field.
use vstd::prelude::*;

verus! {

/// The characters of an optional string.
pub open spec fn opt_view(o: Option<String>) -> Option<Seq<char>> {
    match o {
        Some(s) => Some(s@),
        None => None,
    }
}

/// A field's value as read: its text, or empty where it was never set.
pub open spec fn or_empty(o: Option<Seq<char>>) -> Seq<char> {
    match o {
        Some(s) => s,
        None => Seq::empty(),
    }
}

/// An update replaces the fields that it sets and keeps the others.
pub open spec fn merged(old: Option<Seq<char>>, new: Option<Seq<char>>) -> Option<Seq<char>> {
    match new {
        Some(v) => Some(v),
        None => old,
    }
}

/// The credentials of the messaging broker and of the wireless network.
pub struct Config {
    mqtt_user: Option<String>,
    mqtt_password: Option<String>,
    wifi_ssid: Option<String>,
    wifi_password: Option<String>,
}

/// A partial update of a [`Config`]: the fields it sets replace those of the
/// configuration, the others are left alone.
pub struct ConfigUpdater {
    mqtt_user: Option<String>,
    mqtt_password: Option<String>,
    wifi_ssid: Option<String>,
    wifi_password: Option<String>,
}

fn copy_or_empty(o: &Option<String>) -> (r: String)
    ensures
        r@ == or_empty(opt_view(*o)),
{
    match o {
        Some(s) => s.clone(),
        None => String::new(),
    }
}

impl ConfigUpdater {
    pub closed spec fn mqtt_user_spec(&self) -> Option<Seq<char>> {
        opt_view(self.mqtt_user)
    }

    pub closed spec fn mqtt_password_spec(&self) -> Option<Seq<char>> {
        opt_view(self.mqtt_password)
    }

    pub closed spec fn wifi_ssid_spec(&self) -> Option<Seq<char>> {
        opt_view(self.wifi_ssid)
    }

    pub closed spec fn wifi_password_spec(&self) -> Option<Seq<char>> {
        opt_view(self.wifi_password)
    }

    /// An update that sets nothing.
    pub fn new() -> (u: ConfigUpdater)
        ensures
            u.mqtt_user_spec() is None,
            u.mqtt_password_spec() is None,
            u.wifi_ssid_spec() is None,
            u.wifi_password_spec() is None,
    {
        ConfigUpdater { mqtt_user: None, mqtt_password: None, wifi_ssid: None, wifi_password: None }
    }

    /// Sets the broker user name.
    pub fn mqtt_user(self, new: &str) -> (u: ConfigUpdater)
        ensures
            u.mqtt_user_spec() == Some(new@),
            u.mqtt_password_spec() == self.mqtt_password_spec(),
            u.wifi_ssid_spec() == self.wifi_ssid_spec(),
            u.wifi_password_spec() == self.wifi_password_spec(),
    {
        let mut u = self;
        u.mqtt_user = Some(new.to_owned());
        u
    }

    /// Sets the broker password.
    pub fn mqtt_password(self, new: &str) -> (u: ConfigUpdater)
        ensures
            u.mqtt_user_spec() == self.mqtt_user_spec(),
            u.mqtt_password_spec() == Some(new@),
            u.wifi_ssid_spec() == self.wifi_ssid_spec(),
            u.wifi_password_spec() == self.wifi_password_spec(),
    {
        let mut u = self;
        u.mqtt_password = Some(new.to_owned());
        u
    }

    /// Sets the network name.
    pub fn wifi_ssid(self, new: &str) -> (u: ConfigUpdater)
        ensures
            u.mqtt_user_spec() == self.mqtt_user_spec(),
            u.mqtt_password_spec() == self.mqtt_password_spec(),
            u.wifi_ssid_spec() == Some(new@),
            u.wifi_password_spec() == self.wifi_password_spec(),
    {
        let mut u = self;
        u.wifi_ssid = Some(new.to_owned());
        u
    }

    /// Sets the network password.
    pub fn wifi_password(self, new: &str) -> (u: ConfigUpdater)
        ensures
            u.mqtt_user_spec() == self.mqtt_user_spec(),
            u.mqtt_password_spec() == self.mqtt_password_spec(),
            u.wifi_ssid_spec() == self.wifi_ssid_spec(),
            u.wifi_password_spec() == Some(new@),
    {
        let mut u = self;
        u.wifi_password = Some(new.to_owned());
        u
    }

    /// Writes the fields this update sets into `config`; the others keep their values.
    pub fn update(self, config: &mut Config)
        ensures
            final(config).mqtt_user_spec() == merged(old(config).mqtt_user_spec(), self.mqtt_user_spec()),
            final(config).mqtt_password_spec() == merged(old(config).mqtt_password_spec(), self.mqtt_password_spec()),
            final(config).wifi_ssid_spec() == merged(old(config).wifi_ssid_spec(), self.wifi_ssid_spec()),
            final(config).wifi_password_spec() == merged(old(config).wifi_password_spec(), self.wifi_password_spec()),
    {
        if self.mqtt_user.is_some() {
            config.mqtt_user = self.mqtt_user;
        }
        if self.mqtt_password.is_some() {
            config.mqtt_password = self.mqtt_password;
        }
        if self.wifi_ssid.is_some() {
            config.wifi_ssid = self.wifi_ssid;
        }
        if self.wifi_password.is_some() {
            config.wifi_password = self.wifi_password;
        }
    }
}

impl Config {
    pub closed spec fn mqtt_user_spec(&self) -> Option<Seq<char>> {
        opt_view(self.mqtt_user)
    }

    pub closed spec fn mqtt_password_spec(&self) -> Option<Seq<char>> {
        opt_view(self.mqtt_password)
    }

    pub closed spec fn wifi_ssid_spec(&self) -> Option<Seq<char>> {
        opt_view(self.wifi_ssid)
    }

    pub closed spec fn wifi_password_spec(&self) -> Option<Seq<char>> {
        opt_view(self.wifi_password)
    }

    /// A configuration with no field set.
    pub fn new() -> (c: Config)
        ensures
            c.mqtt_user_spec() is None,
            c.mqtt_password_spec() is None,
            c.wifi_ssid_spec() is None,
            c.wifi_password_spec() is None,
    {
        Config { mqtt_user: None, mqtt_password: None, wifi_ssid: None, wifi_password: None }
    }

    /// Starts a partial update.
    pub fn update() -> (u: ConfigUpdater)
        ensures
            u.mqtt_user_spec() is None,
            u.mqtt_password_spec() is None,
            u.wifi_ssid_spec() is None,
            u.wifi_password_spec() is None,
    {
        ConfigUpdater::new()
    }

    /// A copy of the broker user name; empty where it was never set.
    pub fn mqtt_user(&self) -> (r: String)
        ensures
            r@ == or_empty(self.mqtt_user_spec()),
    {
        copy_or_empty(&self.mqtt_user)
    }

    /// A copy of the broker password; empty where it was never set.
    pub fn mqtt_password(&self) -> (r: String)
        ensures
            r@ == or_empty(self.mqtt_password_spec()),
    {
        copy_or_empty(&self.mqtt_password)
    }

    /// A copy of the network name; empty where it was never set.
    pub fn wifi_ssid(&self) -> (r: String)
        ensures
            r@ == or_empty(self.wifi_ssid_spec()),
    {
        copy_or_empty(&self.wifi_ssid)
    }

    /// A copy of the network password; empty where it was never set.
    pub fn wifi_password(&self) -> (r: String)
        ensures
            r@ == or_empty(self.wifi_password_spec()),
    {
        copy_or_empty(&self.wifi_password)
    }
}

} // verus!
