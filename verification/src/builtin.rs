//! The definitions that a store is filled with by default: names for the
//! fragments that log lines are commonly made of.

use vstd::prelude::*;

verus! {

/// The number of built-in definitions.
pub const PATTERN_COUNT: usize = 72;

/// The built-in definitions: each name with its body.
pub const PATTERNS: [(&'static str, &'static str); PATTERN_COUNT] = [
    ("USERNAME", r#"[a-zA-Z0-9._-]+"#),
    ("USER", r#"%{USERNAME}"#),
    ("EMAILLOCALPART", r#"[a-zA-Z][a-zA-Z0-9_.+-=:]+"#),
    ("EMAILADDRESS", r#"%{EMAILLOCALPART}@%{HOSTNAME}"#),
    ("INT", r#"(?:[+-]?(?:[0-9]+))"#),
    ("BASE10NUM", r#"(?<![0-9.+-])(?>[+-]?(?:(?:[0-9]+(?:\.[0-9]+)?)|(?:\.[0-9]+)))"#),
    ("NUMBER", r#"(?:%{BASE10NUM})"#),
    ("BASE16NUM", r#"(?<![0-9A-Fa-f])(?:[+-]?(?:0x)?(?:[0-9A-Fa-f]+))"#),
    ("BASE16FLOAT", r#"\b(?<![0-9A-Fa-f.])(?:[+-]?(?:0x)?(?:(?:[0-9A-Fa-f]+(?:\.[0-9A-Fa-f]*)?)|(?:\.[0-9A-Fa-f]+)))\b"#),
    ("POSINT", r#"\b(?:[1-9][0-9]*)\b"#),
    ("NONNEGINT", r#"\b(?:[0-9]+)\b"#),
    ("WORD", r#"\b\w+\b"#),
    ("NOTSPACE", r#"\S+"#),
    ("SPACE", r#"\s*"#),
    ("DATA", r#".*?"#),
    ("GREEDYDATA", r#".*"#),
    ("QUOTEDSTRING", r#"(?>(?<!\\)(?>"(?>\\.|[^\\"]+)+"|""|(?>'(?>\\.|[^\\']+)+')|''|(?>`(?>\\.|[^\\`]+)+`)|``))"#),
    ("UUID", r#"[A-Fa-f0-9]{8}-(?:[A-Fa-f0-9]{4}-){3}[A-Fa-f0-9]{12}"#),
    ("URN", r#"urn:[0-9A-Za-z][0-9A-Za-z-]{0,31}:(?:%[0-9a-fA-F]{2}|[0-9A-Za-z()+,.:=@;$_!*'/?#-])+"#),
    ("MAC", r#"(?:%{CISCOMAC}|%{WINDOWSMAC}|%{COMMONMAC})"#),
    ("CISCOMAC", r#"(?:(?:[A-Fa-f0-9]{4}\.){2}[A-Fa-f0-9]{4})"#),
    ("WINDOWSMAC", r#"(?:(?:[A-Fa-f0-9]{2}-){5}[A-Fa-f0-9]{2})"#),
    ("COMMONMAC", r#"(?:(?:[A-Fa-f0-9]{2}:){5}[A-Fa-f0-9]{2})"#),
    ("IPV6", r#"((([0-9A-Fa-f]{1,4}:){7}([0-9A-Fa-f]{1,4}|:))|(([0-9A-Fa-f]{1,4}:){6}(:[0-9A-Fa-f]{1,4}|((25[0-5]|2[0-4]\d|1\d\d|[1-9]?\d)(\.(25[0-5]|2[0-4]\d|1\d\d|[1-9]?\d)){3})|:))|(([0-9A-Fa-f]{1,4}:){5}(((:[0-9A-Fa-f]{1,4}){1,2})|:((25[0-5]|2[0-4]\d|1\d\d|[1-9]?\d)(\.(25[0-5]|2[0-4]\d|1\d\d|[1-9]?\d)){3})|:))|(([0-9A-Fa-f]{1,4}:){4}(((:[0-9A-Fa-f]{1,4}){1,3})|((:[0-9A-Fa-f]{1,4})?:((25[0-5]|2[0-4]\d|1\d\d|[1-9]?\d)(\.(25[0-5]|2[0-4]\d|1\d\d|[1-9]?\d)){3}))|:))|(([0-9A-Fa-f]{1,4}:){3}(((:[0-9A-Fa-f]{1,4}){1,4})|((:[0-9A-Fa-f]{1,4}){0,2}:((25[0-5]|2[0-4]\d|1\d\d|[1-9]?\d)(\.(25[0-5]|2[0-4]\d|1\d\d|[1-9]?\d)){3}))|:))|(([0-9A-Fa-f]{1,4}:){2}(((:[0-9A-Fa-f]{1,4}){1,5})|((:[0-9A-Fa-f]{1,4}){0,3}:((25[0-5]|2[0-4]\d|1\d\d|[1-9]?\d)(\.(25[0-5]|2[0-4]\d|1\d\d|[1-9]?\d)){3}))|:))|(([0-9A-Fa-f]{1,4}:){1}(((:[0-9A-Fa-f]{1,4}){1,6})|((:[0-9A-Fa-f]{1,4}){0,4}:((25[0-5]|2[0-4]\d|1\d\d|[1-9]?\d)(\.(25[0-5]|2[0-4]\d|1\d\d|[1-9]?\d)){3}))|:))|(:(((:[0-9A-Fa-f]{1,4}){1,7})|((:[0-9A-Fa-f]{1,4}){0,5}:((25[0-5]|2[0-4]\d|1\d\d|[1-9]?\d)(\.(25[0-5]|2[0-4]\d|1\d\d|[1-9]?\d)){3}))|:)))(%.+)?"#),
    ("IPV4", r#"(?<![0-9])(?:(?:[0-1]?[0-9]{1,2}|2[0-4][0-9]|25[0-5])[.](?:[0-1]?[0-9]{1,2}|2[0-4][0-9]|25[0-5])[.](?:[0-1]?[0-9]{1,2}|2[0-4][0-9]|25[0-5])[.](?:[0-1]?[0-9]{1,2}|2[0-4][0-9]|25[0-5]))(?![0-9])"#),
    ("IP", r#"(?:%{IPV6}|%{IPV4})"#),
    ("HOSTNAME", r#"\b(?:[0-9A-Za-z][0-9A-Za-z-]{0,62})(?:\.(?:[0-9A-Za-z][0-9A-Za-z-]{0,62}))*(\.?|\b)"#),
    ("IPORHOST", r#"(?:%{IP}|%{HOSTNAME})"#),
    ("HOSTPORT", r#"%{IPORHOST}:%{POSINT}"#),
    ("PATH", r#"(?:%{UNIXPATH}|%{WINPATH})"#),
    ("UNIXPATH", r#"(/([\w_%!$@:.,+~-]+|\\.)*)+"#),
    ("TTY", r#"(?:/dev/(pts|tty([pq])?)(\w+)?/?(?:[0-9]+))"#),
    ("WINPATH", r#"(?>[A-Za-z]+:|\\)(?:\\[^\\?*]*)+"#),
    ("URIPROTO", r#"[A-Za-z]([A-Za-z0-9+\-.]+)+"#),
    ("URIHOST", r#"%{IPORHOST}(?::%{POSINT:port})?"#),
    ("URIPATH", r#"(?:/[A-Za-z0-9$.+!*'(){},~:;=@#%&_\-]*)+"#),
    ("URIPARAM", r#"\?[A-Za-z0-9$.+!*'|(){},~@#%&/=:;_?\-\[\]<>]*"#),
    ("URIPATHPARAM", r#"%{URIPATH}(?:%{URIPARAM})?"#),
    ("URI", r#"%{URIPROTO}://(?:%{USER}(?::[^@]*)?@)?(?:%{URIHOST})?(?:%{URIPATHPARAM})?"#),
    ("MONTH", r#"\b(?:[Jj]an(?:uary|uar)?|[Ff]eb(?:ruary|ruar)?|[Mm](?:a|ä)?r(?:ch|z)?|[Aa]pr(?:il)?|[Mm]a(?:y|i)?|[Jj]un(?:e|i)?|[Jj]ul(?:y)?|[Aa]ug(?:ust)?|[Ss]ep(?:tember)?|[Oo](?:c|k)?t(?:ober)?|[Nn]ov(?:ember)?|[Dd]e(?:c|z)(?:ember)?)\b"#),
    ("MONTHNUM", r#"(?:0?[1-9]|1[0-2])"#),
    ("MONTHNUM2", r#"(?:0[1-9]|1[0-2])"#),
    ("MONTHDAY", r#"(?:(?:0[1-9])|(?:[12][0-9])|(?:3[01])|[1-9])"#),
    ("DAY", r#"(?:Mon(?:day)?|Tue(?:sday)?|Wed(?:nesday)?|Thu(?:rsday)?|Fri(?:day)?|Sat(?:urday)?|Sun(?:day)?)"#),
    ("YEAR", r#"(?>\d\d){1,2}"#),
    ("HOUR", r#"(?:2[0123]|[01]?[0-9])"#),
    ("MINUTE", r#"(?:[0-5][0-9])"#),
    ("SECOND", r#"(?:(?:[0-5]?[0-9]|60)(?:[:.,][0-9]+)?)"#),
    ("TIME", r#"(?!<[0-9])%{HOUR}:%{MINUTE}(?::%{SECOND})(?![0-9])"#),
    ("DATE_US", r#"%{MONTHNUM}[/-]%{MONTHDAY}[/-]%{YEAR}"#),
    ("DATE_EU", r#"%{MONTHDAY}[./-]%{MONTHNUM}[./-]%{YEAR}"#),
    ("ISO8601_TIMEZONE", r#"(?:Z|[+-]%{HOUR}(?::?%{MINUTE}))"#),
    ("ISO8601_SECOND", r#"(?:%{SECOND}|60)"#),
    ("TIMESTAMP_ISO8601", r#"%{YEAR}-%{MONTHNUM}-%{MONTHDAY}[T ]%{HOUR}:?%{MINUTE}(?::?%{SECOND})?%{ISO8601_TIMEZONE}?"#),
    ("DATE", r#"%{DATE_US}|%{DATE_EU}"#),
    ("DATESTAMP", r#"%{DATE}[- ]%{TIME}"#),
    ("TZ", r#"(?:[APMCE][SD]T|UTC)"#),
    ("DATESTAMP_RFC822", r#"%{DAY} %{MONTH} %{MONTHDAY} %{YEAR} %{TIME} %{TZ}"#),
    ("DATESTAMP_RFC2822", r#"%{DAY}, %{MONTHDAY} %{MONTH} %{YEAR} %{TIME} %{ISO8601_TIMEZONE}"#),
    ("DATESTAMP_OTHER", r#"%{DAY} %{MONTH} %{MONTHDAY} %{TIME} %{TZ} %{YEAR}"#),
    ("DATESTAMP_EVENTLOG", r#"%{YEAR}%{MONTHNUM2}%{MONTHDAY}%{HOUR}%{MINUTE}%{SECOND}"#),
    ("SYSLOGTIMESTAMP", r#"%{MONTH} +%{MONTHDAY} %{TIME}"#),
    ("PROG", r#"[\x21-\x5a\x5c\x5e-\x7e]+"#),
    ("SYSLOGPROG", r#"%{PROG:program}(?:\[%{POSINT:pid}\])?"#),
    ("SYSLOGHOST", r#"%{IPORHOST}"#),
    ("SYSLOGFACILITY", r#"<%{NONNEGINT:facility}.%{NONNEGINT:priority}>"#),
    ("HTTPDATE", r#"%{MONTHDAY}/%{MONTH}/%{YEAR}:%{TIME} %{INT}"#),
    ("QS", r#"%{QUOTEDSTRING}"#),
    ("SYSLOGBASE", r#"%{SYSLOGTIMESTAMP:timestamp} (?:%{SYSLOGFACILITY} )?%{SYSLOGHOST:logsource} %{SYSLOGPROG}:"#),
    ("COMMONAPACHELOG", r#"%{IPORHOST:clientip} %{USER:ident} %{USER:auth} \[%{HTTPDATE:timestamp}\] "(?:%{WORD:verb} %{NOTSPACE:request}(?: HTTP/%{NUMBER:httpversion})?|%{DATA:rawrequest})" %{NUMBER:response} (?:%{NUMBER:bytes}|-)"#),
    ("COMBINEDAPACHELOG", r#"%{COMMONAPACHELOG} %{QS:referrer} %{QS:agent}"#),
    ("LOGLEVEL", r#"([Aa]lert|ALERT|[Tt]race|TRACE|[Dd]ebug|DEBUG|[Nn]otice|NOTICE|[Ii]nfo|INFO|[Ww]arn?(?:ing)?|WARN?(?:ING)?|[Ee]rr?(?:or)?|ERR?(?:OR)?|[Cc]rit?(?:ical)?|CRIT?(?:ICAL)?|[Ff]atal|FATAL|[Ss]evere|SEVERE|EMERG(?:ENCY)?|[Ee]merg(?:ency)?)"#),
];

/// Returns the default patterns, also used by the default constructor of `Grok`.
pub fn patterns() -> (table: &'static [(&'static str, &'static str)])
    ensures
        table@ == PATTERNS@,
{
    &PATTERNS
}

} // verus!
