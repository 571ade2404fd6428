//! Service configuration, passed explicitly to whatever needs it.
use vstd::prelude::*;
use vstd::string::*;

use crate::scheduler::Source;

verus! {

/// Where the service listens.
#[derive(Clone, Debug)]
pub struct Server {
    pub listen_address: String,
    pub listen_port: u16,
}

/// The SOCKS5 proxy, and for which sources it is used.
#[derive(Clone, Debug)]
pub struct Socket5 {
    pub ip: String,
    pub port: u16,
    pub coinmarketcap: bool,
    pub alternative: bool,
    pub blockstream: bool,
    pub ethscan: bool,
    pub awtmt: bool,
}

/// Keys for the sources that need one.
#[derive(Clone, Debug)]
pub struct ApiKey {
    pub coinmarketcap: String,
}

/// Configured refresh intervals, in seconds.
#[derive(Clone, Copy, Debug)]
pub struct Timer {
    pub coinmarketcap_latest: u64,
    pub awtmt_market: u64,
}

/// Bearer tokens of the protected routes; an empty token lets every request through.
#[derive(Clone, Debug)]
pub struct AuthToken {
    pub rssbox_android: String,
    pub admin: String,
}

/// The whole configuration, with the paths of the configuration file and the database.
#[derive(Clone, Debug)]
pub struct Config {
    pub config_path: String,
    pub db_path: String,
    pub server: Server,
    pub socket5: Socket5,
    pub api_key: ApiKey,
    pub auth_token: AuthToken,
    pub timer: Timer,
}

impl Server {
    pub fn duplicate(&self) -> (r: Server)
        ensures
            r == *self,
    {
        Server { listen_address: self.listen_address.clone(), listen_port: self.listen_port }
    }
}

impl Socket5 {
    pub fn duplicate(&self) -> (r: Socket5)
        ensures
            r == *self,
    {
        Socket5 {
            ip: self.ip.clone(),
            port: self.port,
            coinmarketcap: self.coinmarketcap,
            alternative: self.alternative,
            blockstream: self.blockstream,
            ethscan: self.ethscan,
            awtmt: self.awtmt,
        }
    }
}

impl ApiKey {
    pub fn duplicate(&self) -> (r: ApiKey)
        ensures
            r == *self,
    {
        ApiKey { coinmarketcap: self.coinmarketcap.clone() }
    }
}

impl AuthToken {
    pub fn duplicate(&self) -> (r: AuthToken)
        ensures
            r == *self,
    {
        AuthToken { rssbox_android: self.rssbox_android.clone(), admin: self.admin.clone() }
    }
}

impl Default for Server {
    fn default() -> (r: Server)
        ensures
            r.listen_address@ == "0.0.0.0"@,
            r.listen_port == 8004,
    {
        Server { listen_address: String::from_str("0.0.0.0"), listen_port: 8004 }
    }
}

impl Default for Socket5 {
    fn default() -> (r: Socket5)
        ensures
            r.ip@ == "127.0.0.1"@,
            r.port == 1084,
            !r.coinmarketcap && !r.alternative && !r.blockstream && !r.ethscan && !r.awtmt,
    {
        Socket5 {
            ip: String::from_str("127.0.0.1"),
            port: 1084,
            coinmarketcap: false,
            alternative: false,
            blockstream: false,
            ethscan: false,
            awtmt: false,
        }
    }
}

impl Default for ApiKey {
    fn default() -> (r: ApiKey)
        ensures
            r.coinmarketcap@ == Seq::<char>::empty(),
    {
        ApiKey { coinmarketcap: String::new() }
    }
}

impl Default for Timer {
    fn default() -> (r: Timer)
        ensures
            r.coinmarketcap_latest == 1800,
            r.awtmt_market == 30,
    {
        Timer { coinmarketcap_latest: 1800, awtmt_market: 30 }
    }
}

impl Default for AuthToken {
    fn default() -> (r: AuthToken)
        ensures
            r.rssbox_android@ == Seq::<char>::empty(),
            r.admin@ == Seq::<char>::empty(),
    {
        AuthToken { rssbox_android: String::new(), admin: String::new() }
    }
}

impl Default for Config {
    fn default() -> (r: Config)
        ensures
            r.config_path@ == Seq::<char>::empty(),
            r.db_path@ == Seq::<char>::empty(),
            r.server.listen_address@ == "0.0.0.0"@,
            r.server.listen_port == 8004,
            r.socket5.ip@ == "127.0.0.1"@,
            r.socket5.port == 1084,
            !r.socket5.coinmarketcap && !r.socket5.alternative && !r.socket5.blockstream
                && !r.socket5.ethscan && !r.socket5.awtmt,
            r.api_key.coinmarketcap@ == Seq::<char>::empty(),
            r.auth_token.rssbox_android@ == Seq::<char>::empty(),
            r.auth_token.admin@ == Seq::<char>::empty(),
            r.timer.coinmarketcap_latest == 1800,
            r.timer.awtmt_market == 30,
    {
        Config {
            config_path: String::new(),
            db_path: String::new(),
            server: Server::default(),
            socket5: Socket5::default(),
            api_key: ApiKey::default(),
            auth_token: AuthToken::default(),
            timer: Timer::default(),
        }
    }
}

impl Config {
    /// Sets where the configuration file and the database live, then takes the
    /// server, proxy, key and timer settings of `loaded`, the configuration
    /// file's content, if there was one. The auth tokens are not read from the
    /// file: they stay as they were.
    pub fn init(&mut self, config_path: String, db_path: String, loaded: Option<Config>)
        ensures
            final(self).config_path == config_path,
            final(self).db_path == db_path,
            match loaded {
                Some(c) => {
                    &&& final(self).server == c.server
                    &&& final(self).socket5 == c.socket5
                    &&& final(self).api_key == c.api_key
                    &&& final(self).timer == c.timer
                },
                None => {
                    &&& final(self).server == old(self).server
                    &&& final(self).socket5 == old(self).socket5
                    &&& final(self).api_key == old(self).api_key
                    &&& final(self).timer == old(self).timer
                },
            },
            final(self).auth_token == old(self).auth_token,
    {
        self.config_path = config_path;
        self.db_path = db_path;
        if let Some(c) = loaded {
            self.server = c.server;
            self.socket5 = c.socket5;
            self.api_key = c.api_key;
            self.timer = c.timer;
        }
    }
}

/// Replaces the configuration; the caller then writes it to `config_path`.
pub fn save(config: &mut Config, conf: Config)
    ensures
        *final(config) == conf,
{
    *config = conf;
}

pub fn server(config: &Config) -> (r: Server)
    ensures
        r == config.server,
{
    config.server.duplicate()
}

pub fn socket5(config: &Config) -> (r: Socket5)
    ensures
        r == config.socket5,
{
    config.socket5.duplicate()
}

pub fn api_key(config: &Config) -> (r: ApiKey)
    ensures
        r == config.api_key,
{
    config.api_key.duplicate()
}

pub fn auth_token(config: &Config) -> (r: AuthToken)
    ensures
        r == config.auth_token,
{
    config.auth_token.duplicate()
}

pub fn timer(config: &Config) -> (r: Timer)
    ensures
        r == config.timer,
{
    config.timer
}

pub fn db_path(config: &Config) -> (r: String)
    ensures
        r == config.db_path,
{
    config.db_path.clone()
}

/// Whether the fetch of `source` goes through the proxy: each source by its own flag.
pub open spec fn proxied(s: Socket5, source: Source) -> bool {
    match source {
        Source::CryptoLatest => s.coinmarketcap,
        Source::GreedFear | Source::Global => s.alternative,
        Source::EthereumGasFee => s.ethscan,
        Source::BitcoinGasFee => s.blockstream,
        Source::Market => s.awtmt,
    }
}

/// The decimal digits of `n`.
pub open spec fn decimal(n: nat) -> Seq<char>
    decreases n,
{
    if n < 10 {
        seq![digit_char(n)]
    } else {
        decimal(n / 10).push(digit_char(n % 10))
    }
}

pub open spec fn digit_char(d: nat) -> char {
    if d < 10 {
        (('0' as nat) + d) as char
    } else {
        '?'
    }
}

fn digit_str(d: u64) -> (r: &'static str)
    requires
        d < 10,
    ensures
        r@ == seq![digit_char(d as nat)],
{
    proof {
        reveal_strlit("0");
        reveal_strlit("1");
        reveal_strlit("2");
        reveal_strlit("3");
        reveal_strlit("4");
        reveal_strlit("5");
        reveal_strlit("6");
        reveal_strlit("7");
        reveal_strlit("8");
        reveal_strlit("9");
    }
    let r = match d {
        0 => "0",
        1 => "1",
        2 => "2",
        3 => "3",
        4 => "4",
        5 => "5",
        6 => "6",
        7 => "7",
        8 => "8",
        _ => "9",
    };
    assert(r@ =~= seq![digit_char(d as nat)]);
    r
}

/// `n` written in decimal.
pub fn decimal_string(n: u64) -> (r: String)
    ensures
        r@ == decimal(n as nat),
    decreases n,
{
    if n < 10 {
        String::from_str(digit_str(n))
    } else {
        let mut s = decimal_string(n / 10);
        s.append(digit_str(n % 10));
        assert(s@ =~= decimal(n as nat));
        s
    }
}

/// The proxy URL `socks5://ip:port` for `source`, or none for a direct connection.
pub fn proxy_url(socket5: &Socket5, source: Source) -> (r: Option<String>)
    ensures
        match r {
            Some(u) => proxied(*socket5, source) && u@ == "socks5://"@ + socket5.ip@ + ":"@
                + decimal(socket5.port as nat),
            None => !proxied(*socket5, source),
        },
{
    let on = match source {
        Source::CryptoLatest => socket5.coinmarketcap,
        Source::GreedFear | Source::Global => socket5.alternative,
        Source::EthereumGasFee => socket5.ethscan,
        Source::BitcoinGasFee => socket5.blockstream,
        Source::Market => socket5.awtmt,
    };
    if !on {
        return None;
    }
    let mut u = String::from_str("socks5://");
    u.append(socket5.ip.as_str());
    u.append(":");
    let port = decimal_string(socket5.port as u64);
    u.append(port.as_str());
    Some(u)
}

} // verus!
