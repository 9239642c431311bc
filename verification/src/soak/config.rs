//! The configuration of a soak campaign and the checks it must pass.

use crate::text::{
    decimal, decimal_digits, number_fault, parse_u64, parsed_unsigned, quoted, quoted_text, same,
    write_number_fault,
};
use vstd::prelude::*;

verus! {

/// The namespace every resource of the exercise lives in.
pub const NAMESPACE: &'static str = "updated-system";

/// How many groups the soak fleet is divided into.
pub const SOAK_GROUP_COUNT: usize = 3;

/// The configuration of a soak campaign. Durations are in seconds.
pub struct Config {
    pub namespace: String,
    pub seed: u64,
    pub agent_count: usize,
    pub round_interval: u64,
    pub fault_duration: u64,
    pub convergence_timeout: u64,
    pub release_data: String,
    pub state_dir: String,
}

/// The message for the first check that a configuration fails, if it fails one.
pub open spec fn values_error(
    agent_count: usize,
    fault_duration: u64,
    convergence_timeout: u64,
    namespace: Seq<char>,
) -> Option<Seq<char>> {
    if agent_count % SOAK_GROUP_COUNT != 0 {
        Some(
            "agent count "@ + decimal_digits(agent_count as nat) + " must divide evenly across "@
                + decimal_digits(SOAK_GROUP_COUNT as nat) + " soak groups"@,
        )
    } else if fault_duration >= convergence_timeout {
        Some("fault duration must be shorter than the convergence budget"@)
    } else if namespace != NAMESPACE@ {
        Some(
            "soak namespace "@ + quoted_text(namespace)
                + " disagrees with the shared fixture namespace "@ + quoted_text(NAMESPACE@),
        )
    } else {
        None
    }
}

/// The message for the first check that a configuration fails, if it fails one.
pub open spec fn config_error(config: Config) -> Option<Seq<char>> {
    values_error(
        config.agent_count,
        config.fault_duration,
        config.convergence_timeout,
        config.namespace@,
    )
}

/// `directory` with the relative file name `name` appended, as a Unix path.
pub open spec fn joined_path(directory: Seq<char>, name: Seq<char>) -> Seq<char> {
    if directory.len() == 0 || directory.last() == '/' {
        directory + name
    } else {
        directory + "/"@ + name
    }
}

/// `directory` with the relative file name `name` appended, as a Unix path.
pub fn join_path(directory: &str, name: &str) -> (result: String)
    ensures
        result@ == joined_path(directory@, name@),
{
    let size: usize = directory.unicode_len();
    let mut result = String::from_str(directory);
    if size > 0 && directory.get_char(size - 1) != '/' {
        result.append("/");
    }
    result.append(name);
    result
}

impl Config {
    /// Checks that the fleet divides evenly, that a fault ends within the convergence budget, and
    /// that the namespace is the shared one.
    pub fn validate(&self) -> (result: Result<(), String>)
        ensures
            match result {
                Ok(_) => config_error(*self) is None,
                Err(message) => config_error(*self) == Some(message@),
            },
    {
        if self.agent_count % SOAK_GROUP_COUNT != 0 {
            let mut message = String::from_str("agent count ");
            message.append(decimal(self.agent_count as u64).as_str());
            message.append(" must divide evenly across ");
            message.append(decimal(SOAK_GROUP_COUNT as u64).as_str());
            message.append(" soak groups");
            return Err(message);
        }
        if self.fault_duration >= self.convergence_timeout {
            return Err(
                String::from_str("fault duration must be shorter than the convergence budget"),
            );
        }
        if !same(self.namespace.as_str(), NAMESPACE) {
            let mut message = String::from_str("soak namespace ");
            message.append(quoted(self.namespace.as_str()).as_str());
            message.append(" disagrees with the shared fixture namespace ");
            message.append(quoted(NAMESPACE).as_str());
            return Err(message);
        }
        Ok(())
    }

    /// Where the campaign's state is kept.
    pub fn state_path(&self) -> (result: String)
        ensures
            result@ == joined_path(self.state_dir@, "campaign.json"@),
    {
        join_path(self.state_dir.as_str(), "campaign.json")
    }

    /// Where the campaign's records are appended.
    pub fn journal_path(&self) -> (result: String)
        ensures
            result@ == joined_path(self.state_dir@, "campaigns.jsonl"@),
    {
        join_path(self.state_dir.as_str(), "campaigns.jsonl")
    }
}

/// A setting read from the environment.
pub enum Setting {
    /// The variable is not set.
    Absent,
    /// The variable holds this text.
    Text(String),
    /// The variable cannot be read, for the reason given.
    Unreadable(String),
}

/// What is wrong with a numeric setting.
pub enum SettingError {
    /// The variable cannot be read, for the reason given.
    Unreadable(String),
    /// The text is not an unsigned 64-bit integer, for the reason given.
    NotAnInteger(String),
    /// The number lies outside the accepted range, which is given.
    OutOfRange { value: u64, least: u64, most: u64 },
}

/// What is wrong with a numeric setting.
pub enum SettingFault {
    Unreadable(Seq<char>),
    NotAnInteger(Seq<char>),
    OutOfRange { value: u64, least: u64, most: u64 },
}

impl View for SettingError {
    type V = SettingFault;

    open spec fn view(&self) -> SettingFault {
        match *self {
            SettingError::Unreadable(reason) => SettingFault::Unreadable(reason@),
            SettingError::NotAnInteger(reason) => SettingFault::NotAnInteger(reason@),
            SettingError::OutOfRange { value, least, most } => SettingFault::OutOfRange {
                value,
                least,
                most,
            },
        }
    }
}

/// What is wrong with a setting, in words.
pub open spec fn setting_message(name: Seq<char>, fault: SettingFault) -> Seq<char> {
    match fault {
        SettingFault::Unreadable(reason) => "cannot read "@ + name + ": "@ + reason,
        SettingFault::NotAnInteger(reason) => name + " must be an integer: "@ + reason,
        SettingFault::OutOfRange { value, least, most } => name + " must be in "@ + decimal_digits(
            least as nat,
        ) + "..="@ + decimal_digits(most as nat) + ", got "@ + decimal_digits(value as nat),
    }
}

/// What is wrong with a setting, in words.
pub fn write_setting_error(name: &str, error: &SettingError) -> (result: String)
    ensures
        result@ == setting_message(name@, error@),
{
    match error {
        SettingError::Unreadable(reason) => {
            let mut message = String::from_str("cannot read ");
            message.append(name);
            message.append(": ");
            message.append(reason.as_str());
            message
        },
        SettingError::NotAnInteger(reason) => {
            let mut message = String::from_str(name);
            message.append(" must be an integer: ");
            message.append(reason.as_str());
            message
        },
        SettingError::OutOfRange { value, least, most } => {
            let mut message = String::from_str(name);
            message.append(" must be in ");
            message.append(decimal(*least).as_str());
            message.append("..=");
            message.append(decimal(*most).as_str());
            message.append(", got ");
            message.append(decimal(*value).as_str());
            message
        },
    }
}

/// The value of a numeric setting: the default where it is absent, and the number it writes
/// otherwise, if that lies in `least..=most`.
pub open spec fn setting_value(setting: Setting, default: u64, least: u64, most: u64) -> Result<
    u64,
    SettingFault,
> {
    match setting {
        Setting::Absent => if least <= default <= most {
            Ok(default)
        } else {
            Err(SettingFault::OutOfRange { value: default, least, most })
        },
        Setting::Unreadable(reason) => Err(SettingFault::Unreadable(reason@)),
        Setting::Text(text) => match parsed_unsigned(text@, u64::MAX as nat) {
            None => Err(SettingFault::NotAnInteger(number_fault(text@))),
            Some(number) => if least <= number <= most {
                Ok(number as u64)
            } else {
                Err(SettingFault::OutOfRange { value: number as u64, least, most })
            },
        },
    }
}

/// The value of a numeric setting.
pub fn env_u64(setting: Setting, default: u64, least: u64, most: u64) -> (result: Result<
    u64,
    SettingError,
>)
    ensures
        match (result, setting_value(setting, default, least, most)) {
            (Ok(value), Ok(expected)) => value == expected,
            (Err(error), Err(fault)) => error@ == fault,
            _ => false,
        },
{
    let value: u64 = match setting {
        Setting::Absent => default,
        Setting::Unreadable(reason) => {
            return Err(SettingError::Unreadable(reason));
        },
        Setting::Text(text) => match parse_u64(text.as_str()) {
            Some(number) => number,
            None => {
                return Err(SettingError::NotAnInteger(write_number_fault(text.as_str())));
            },
        },
    };
    if least <= value && value <= most {
        Ok(value)
    } else {
        Err(SettingError::OutOfRange { value, least, most })
    }
}

/// The settings of a campaign, as the environment has them.
pub struct SoakSettings {
    pub namespace: Option<String>,
    pub seed: Setting,
    pub agent_count: Setting,
    pub round_interval: Setting,
    pub fault_duration: Setting,
    pub convergence_timeout: Setting,
    pub release_data: Option<String>,
    pub state_dir: Option<String>,
}

/// Why settings make no configuration.
pub enum ConfigError {
    /// The named setting is wrong.
    Setting(&'static str, SettingError),
    /// The settings do not go together.
    Invalid(String),
}

/// The numbers of a configuration.
pub struct SoakNumbers {
    pub seed: u64,
    pub agent_count: u64,
    pub round_interval: u64,
    pub fault_duration: u64,
    pub convergence_timeout: u64,
}

/// The numbers that settings give, or the first setting that is wrong.
pub open spec fn soak_numbers(settings: SoakSettings) -> Result<
    SoakNumbers,
    (Seq<char>, SettingFault),
> {
    match setting_value(settings.seed, 2_026_082_500, 1, 0x7fff_ffff_ffff_ffff) {
        Err(error) => Err(("UPDATEC_SOAK_SEED"@, error)),
        Ok(seed) => match setting_value(settings.agent_count, 6, 3, 60) {
            Err(error) => Err(("UPDATEC_SOAK_AGENT_COUNT"@, error)),
            Ok(agent_count) => match setting_value(settings.round_interval, 90, 10, 3600) {
                Err(error) => Err(("UPDATEC_SOAK_ROUND_INTERVAL_SECONDS"@, error)),
                Ok(round_interval) => match setting_value(settings.fault_duration, 20, 5, 120) {
                    Err(error) => Err(("UPDATEC_SOAK_FAULT_SECONDS"@, error)),
                    Ok(fault_duration) => match setting_value(
                        settings.convergence_timeout,
                        300,
                        60,
                        1800,
                    ) {
                        Err(error) => Err(("UPDATEC_SOAK_CONVERGENCE_SECONDS"@, error)),
                        Ok(convergence_timeout) => Ok(
                            SoakNumbers {
                                seed,
                                agent_count,
                                round_interval,
                                fault_duration,
                                convergence_timeout,
                            },
                        ),
                    },
                },
            },
        },
    }
}

/// A text, or what stands for a missing one.
pub open spec fn text_or(text: Option<String>, missing: Seq<char>) -> Seq<char> {
    match text {
        Some(found) => found@,
        None => missing,
    }
}

fn use_text_or(text: Option<String>, missing: &str) -> (result: String)
    ensures
        result@ == text_or(text, missing@),
{
    match text {
        Some(found) => found,
        None => missing.to_owned(),
    }
}

fn read_numbers(
    seed: Setting,
    agent_count: Setting,
    round_interval: Setting,
    fault_duration: Setting,
    convergence_timeout: Setting,
) -> (result: Result<SoakNumbers, ConfigError>)
    ensures
        forall|settings: SoakSettings|
            settings.seed == seed && settings.agent_count == agent_count
                && settings.round_interval == round_interval && settings.fault_duration
                == fault_duration && settings.convergence_timeout == convergence_timeout
                ==> match (result, #[trigger] soak_numbers(settings)) {
                (Ok(numbers), Ok(expected)) => numbers == expected,
                (Err(ConfigError::Setting(name, error)), Err(expected)) => (name@, error@)
                    == expected,
                _ => false,
            },
{
    let seed: u64 = match env_u64(seed, 2_026_082_500, 1, 0x7fff_ffff_ffff_ffff) {
        Ok(value) => value,
        Err(error) => return Err(ConfigError::Setting("UPDATEC_SOAK_SEED", error)),
    };
    let agent_count: u64 = match env_u64(agent_count, 6, 3, 60) {
        Ok(value) => value,
        Err(error) => return Err(ConfigError::Setting("UPDATEC_SOAK_AGENT_COUNT", error)),
    };
    let round_interval: u64 = match env_u64(round_interval, 90, 10, 3600) {
        Ok(value) => value,
        Err(error) => return Err(
            ConfigError::Setting("UPDATEC_SOAK_ROUND_INTERVAL_SECONDS", error),
        ),
    };
    let fault_duration: u64 = match env_u64(fault_duration, 20, 5, 120) {
        Ok(value) => value,
        Err(error) => return Err(ConfigError::Setting("UPDATEC_SOAK_FAULT_SECONDS", error)),
    };
    let convergence_timeout: u64 = match env_u64(convergence_timeout, 300, 60, 1800) {
        Ok(value) => value,
        Err(error) => return Err(
            ConfigError::Setting("UPDATEC_SOAK_CONVERGENCE_SECONDS", error),
        ),
    };
    Ok(SoakNumbers { seed, agent_count, round_interval, fault_duration, convergence_timeout })
}

impl Config {
    /// The configuration that settings make, with a default for each that is absent.
    pub fn from_env(settings: SoakSettings) -> (result: Result<Config, ConfigError>)
        ensures
            match (result, soak_numbers(settings)) {
                (Ok(config), Ok(numbers)) => {
                    &&& config.seed == numbers.seed
                    &&& config.agent_count == numbers.agent_count
                    &&& config.round_interval == numbers.round_interval
                    &&& config.fault_duration == numbers.fault_duration
                    &&& config.convergence_timeout == numbers.convergence_timeout
                    &&& config.namespace@ == text_or(settings.namespace, NAMESPACE@)
                    &&& config.release_data@ == text_or(settings.release_data, "/release-data"@)
                    &&& config.state_dir@ == text_or(settings.state_dir, "/state"@)
                    &&& config_error(config) is None
                },
                (Err(ConfigError::Setting(name, error)), Err(expected)) => (name@, error@)
                    == expected,
                (Err(ConfigError::Invalid(message)), Ok(numbers)) => values_error(
                    numbers.agent_count as usize,
                    numbers.fault_duration,
                    numbers.convergence_timeout,
                    text_or(settings.namespace, NAMESPACE@),
                ) == Some(message@),
                _ => false,
            },
    {
        let ghost given = settings;
        let SoakSettings {
            namespace,
            seed,
            agent_count,
            round_interval,
            fault_duration,
            convergence_timeout,
            release_data,
            state_dir,
        } = settings;
        let numbers = match read_numbers(
            seed,
            agent_count,
            round_interval,
            fault_duration,
            convergence_timeout,
        ) {
            Ok(numbers) => numbers,
            Err(error) => {
                assert(soak_numbers(given) is Err);
                return Err(error);
            },
        };
        assert(soak_numbers(given) is Ok);
        let config = Config {
            namespace: use_text_or(namespace, NAMESPACE),
            seed: numbers.seed,
            agent_count: numbers.agent_count as usize,
            round_interval: numbers.round_interval,
            fault_duration: numbers.fault_duration,
            convergence_timeout: numbers.convergence_timeout,
            release_data: use_text_or(release_data, "/release-data"),
            state_dir: use_text_or(state_dir, "/state"),
        };
        match config.validate() {
            Ok(_) => Ok(config),
            Err(message) => Err(ConfigError::Invalid(message)),
        }
    }
}

/// A configuration that passes has a fleet that divides evenly and faults that end within the
/// convergence budget; the defaults pass.
pub proof fn configurations_are_bounded(settings: SoakSettings)
    ensures
        soak_numbers(settings) is Ok ==> 3 <= soak_numbers(settings)->Ok_0.agent_count <= 60
            && 5 <= soak_numbers(settings)->Ok_0.fault_duration <= 120 && 60 <= soak_numbers(
            settings,
        )->Ok_0.convergence_timeout <= 1800,
        values_error(6, 20, 300, NAMESPACE@) is None,
{
}

/// A configuration passes exactly when its fleet divides into three equal groups, its faults end before
/// the convergence budget does, and its namespace is the shared one; what is wrong first is what is
/// said.
pub proof fn configurations_pass_when_they_fit(
    agent_count: usize,
    fault_duration: u64,
    convergence_timeout: u64,
    namespace: Seq<char>,
)
    ensures
        values_error(agent_count, fault_duration, convergence_timeout, namespace) is None
            <==> agent_count % 3 == 0 && fault_duration < convergence_timeout && namespace
            == "updated-system"@,
        agent_count % 3 == 0 && fault_duration >= convergence_timeout ==> values_error(
            agent_count,
            fault_duration,
            convergence_timeout,
            namespace,
        ) == Some("fault duration must be shorter than the convergence budget"@),
{
}

/// A numeric setting is the number that its text writes, or the default where it is absent, exactly when
/// that lies in the range, both ends included; otherwise it is refused for what it is.
pub proof fn settings_are_numbers_in_range(setting: Setting, default: u64, least: u64, most: u64)
    ensures
        setting is Absent ==> (setting_value(setting, default, least, most) is Ok <==> least <= default
            && default <= most),
        setting is Text && parsed_unsigned(setting->Text_0@, u64::MAX as nat) is Some ==> (setting_value(
            setting,
            default,
            least,
            most,
        ) is Ok <==> least <= parsed_unsigned(setting->Text_0@, u64::MAX as nat)->Some_0
            && parsed_unsigned(setting->Text_0@, u64::MAX as nat)->Some_0 <= most),
        setting is Text && parsed_unsigned(setting->Text_0@, u64::MAX as nat) is None
            ==> setting_value(setting, default, least, most) is Err && setting_value(
            setting,
            default,
            least,
            most,
        )->Err_0 is NotAnInteger,
        setting is Unreadable ==> setting_value(setting, default, least, most) is Err && setting_value(
            setting,
            default,
            least,
            most,
        )->Err_0 is Unreadable,
        setting_value(setting, default, least, most) is Ok ==> {
            let value = setting_value(setting, default, least, most)->Ok_0;
            &&& least <= value <= most
            &&& setting is Absent ==> value == default
            &&& setting is Text ==> parsed_unsigned(setting->Text_0@, u64::MAX as nat) == Some(
                value as nat,
            )
        },
{
}

/// Each number of a configuration is that of its own setting, lies in its own range, and has its own
/// default.
pub proof fn each_number_comes_from_its_own_setting(settings: SoakSettings)
    ensures
        soak_numbers(settings) is Ok ==> {
            let numbers = soak_numbers(settings)->Ok_0;
            &&& 1 <= numbers.seed <= 0x7fff_ffff_ffff_ffff
            &&& 3 <= numbers.agent_count <= 60
            &&& 10 <= numbers.round_interval <= 3600
            &&& 5 <= numbers.fault_duration <= 120
            &&& 60 <= numbers.convergence_timeout <= 1800
            &&& settings.seed is Absent ==> numbers.seed == 2_026_082_500
            &&& settings.agent_count is Absent ==> numbers.agent_count == 6
            &&& settings.round_interval is Absent ==> numbers.round_interval == 90
            &&& settings.fault_duration is Absent ==> numbers.fault_duration == 20
            &&& settings.convergence_timeout is Absent ==> numbers.convergence_timeout == 300
            &&& settings.seed is Text ==> parsed_unsigned(
                settings.seed->Text_0@,
                u64::MAX as nat,
            ) == Some(numbers.seed as nat)
            &&& settings.agent_count is Text ==> parsed_unsigned(
                settings.agent_count->Text_0@,
                u64::MAX as nat,
            ) == Some(numbers.agent_count as nat)
            &&& settings.round_interval is Text ==> parsed_unsigned(
                settings.round_interval->Text_0@,
                u64::MAX as nat,
            ) == Some(numbers.round_interval as nat)
            &&& settings.fault_duration is Text ==> parsed_unsigned(
                settings.fault_duration->Text_0@,
                u64::MAX as nat,
            ) == Some(numbers.fault_duration as nat)
            &&& settings.convergence_timeout is Text ==> parsed_unsigned(
                settings.convergence_timeout->Text_0@,
                u64::MAX as nat,
            ) == Some(numbers.convergence_timeout as nat)
        },
        settings.seed is Absent && settings.agent_count is Absent && settings.round_interval is Absent
            && settings.fault_duration is Absent && settings.convergence_timeout is Absent
            ==> soak_numbers(settings) is Ok,
{
}

/// A path in a directory is the directory's, then one slash, then the name; no second slash is put
/// where the directory ends with one, and none where there is no directory.
pub proof fn paths_have_one_slash_between(directory: Seq<char>, name: Seq<char>)
    ensures
        joined_path(directory, name).take(directory.len() as int) == directory,
        joined_path(directory, name).skip(joined_path(directory, name).len() - name.len()) == name,
        directory.len() > 0 ==> joined_path(directory, name)[joined_path(directory, name).len()
            - name.len() - 1] == '/',
        directory.len() == 0 || directory.last() == '/' ==> joined_path(directory, name).len()
            == directory.len() + name.len(),
        directory.len() > 0 && directory.last() != '/' ==> joined_path(directory, name).len()
            == directory.len() + 1 + name.len(),
{
    reveal_strlit("/");
    assert(joined_path(directory, name).take(directory.len() as int) =~= directory);
    assert(joined_path(directory, name).skip(joined_path(directory, name).len() - name.len())
        =~= name);
}

/// A setting that is refused is named, with why: it could not be read, it is no integer, or it is out of
/// a range that is told.
pub proof fn refused_settings_are_named(
    name: Seq<char>,
    reason: Seq<char>,
    value: u64,
    least: u64,
    most: u64,
)
    ensures
        setting_message(name, SettingFault::Unreadable(reason)) == "cannot read "@ + name + ": "@
            + reason,
        setting_message(name, SettingFault::NotAnInteger(reason)) == name
            + " must be an integer: "@ + reason,
        setting_message(name, SettingFault::OutOfRange { value, least, most }) == name
            + " must be in "@ + decimal_digits(least as nat) + "..="@ + decimal_digits(most as nat)
            + ", got "@ + decimal_digits(value as nat),
{
}

} // verus!
