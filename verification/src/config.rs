use crate::subscriber::Subscriber;
use vstd::prelude::*;

verus! {

/// Where the dedup store lives when the configuration names no path.
pub const DEFAULT_HISTORY_PATH: &'static str = "./history.sled";

/// How often the pipeline is invoked, as configured.
#[derive(Debug, Clone)]
pub enum FrequencyConfig {
    Minutely(u64),
    Hourly(u64),
    Daily(u64),
}

/// Credentials and destination for the remote-upload channel.
#[derive(Debug, Clone)]
pub struct PikpakConfig {
    pub username: String,
    pub password: String,
    pub path: String,
}

impl PikpakConfig {
    /// A copy whose fields are provably those of the original.
    pub fn duplicate(&self) -> (r: PikpakConfig)
        ensures
            r.username@ == self.username@,
            r.password@ == self.password@,
            r.path@ == self.path@,
    {
        PikpakConfig {
            username: self.username.clone(),
            password: self.password.clone(),
            path: self.path.clone(),
        }
    }
}

/// The configuration surface the pipeline consumes: credentials for the mail
/// channel, the subscriptions, the optional remote-upload account, an optional
/// proxy, the invocation cadence and where the dedup store lives.
#[derive(Debug)]
pub struct Config {
    pub resend_api_key: String,
    pub send_email: String,
    pub subscriber: Vec<Subscriber>,
    pub pikpak: Option<PikpakConfig>,
    pub proxy: Option<String>,
    pub frequency: Option<FrequencyConfig>,
    pub history_path: Option<String>,
}

impl Config {
    pub fn new(
        resend_api_key: String,
        send_email: String,
        subscriber: Vec<Subscriber>,
        pikpak: Option<PikpakConfig>,
        proxy: Option<String>,
        frequency: Option<FrequencyConfig>,
        history_path: Option<String>,
    ) -> (r: Config)
        ensures
            r.resend_api_key == resend_api_key,
            r.send_email == send_email,
            r.subscriber == subscriber,
            r.pikpak == pikpak,
            r.proxy == proxy,
            r.frequency == frequency,
            r.history_path == history_path,
    {
        Config { resend_api_key, send_email, subscriber, pikpak, proxy, frequency, history_path }
    }

    pub fn subscriber(&self) -> (r: &Vec<Subscriber>)
        ensures
            r == &self.subscriber,
    {
        &self.subscriber
    }

    pub fn resend_api_key(&self) -> (r: &str)
        ensures
            r@ == self.resend_api_key@,
    {
        self.resend_api_key.as_str()
    }

    pub fn send_email(&self) -> (r: &str)
        ensures
            r@ == self.send_email@,
    {
        self.send_email.as_str()
    }

    pub fn proxy(&self) -> (r: Option<&str>)
        ensures
            match r {
                Some(p) => self.proxy is Some && p@ == self.proxy.unwrap()@,
                None => self.proxy is None,
            },
    {
        match &self.proxy {
            Some(p) => Some(p.as_str()),
            None => None,
        }
    }

    pub fn pikpak_config(&self) -> (r: Option<&PikpakConfig>)
        ensures
            match r {
                Some(p) => self.pikpak is Some && *p == self.pikpak.unwrap(),
                None => self.pikpak is None,
            },
    {
        match &self.pikpak {
            Some(p) => Some(p),
            None => None,
        }
    }

    pub fn frequency(&self) -> (r: Option<&FrequencyConfig>)
        ensures
            match r {
                Some(f) => self.frequency is Some && *f == self.frequency.unwrap(),
                None => self.frequency is None,
            },
    {
        match &self.frequency {
            Some(f) => Some(f),
            None => None,
        }
    }

    pub fn history_path(&self) -> (r: Option<&str>)
        ensures
            match r {
                Some(p) => self.history_path is Some && p@ == self.history_path.unwrap()@,
                None => self.history_path is None,
            },
    {
        match &self.history_path {
            Some(p) => Some(p.as_str()),
            None => None,
        }
    }
}

} // verus!
