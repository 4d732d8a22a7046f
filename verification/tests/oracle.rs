//! The oracle driven as its adapter drives it: with a clock, and with the
//! logarithm and the exponential that it asks its caller for.

use oracle::AccumulatedObservation;
use oracle::Decimal;
use oracle::Instant;
use oracle::MinuteLogs;
use oracle::MinutePrices;
use oracle::ObservationInterval;
use oracle::Oracle;
use oracle::OracleError;
use oracle::PreciseDecimal;
use scrypto::math::CheckedTruncate;
use scrypto::math::RoundingMode;

pub const OBSERVATIONS_LIMIT: u16 = 10;

// Conversions between the decimals of the library and those of scrypto.

fn lib_precise(x: scrypto::math::PreciseDecimal) -> PreciseDecimal {
    let d = x.precise_subunits().to_digits();
    PreciseDecimal::from_limbs(d[0], d[1], d[2], d[3])
}

fn radix_precise(x: PreciseDecimal) -> scrypto::math::PreciseDecimal {
    let (d0, d1, d2, d3) = x.to_limbs();
    scrypto::math::PreciseDecimal::from_precise_subunits(scrypto::math::I256::from_digits([
        d0, d1, d2, d3,
    ]))
}

fn lib_decimal(x: scrypto::math::Decimal) -> Decimal {
    let d = x.attos().to_digits();
    Decimal::from_limbs(d[0], d[1], d[2])
}

fn radix_decimal(x: Decimal) -> scrypto::math::Decimal {
    let (d0, d1, d2) = x.to_limbs();
    scrypto::math::Decimal::from_attos(scrypto::math::I192::from_digits([d0, d1, d2]))
}

fn pdec(s: &str) -> scrypto::math::PreciseDecimal {
    scrypto::math::PreciseDecimal::try_from(s).unwrap()
}

fn dec(s: &str) -> scrypto::math::Decimal {
    scrypto::math::Decimal::try_from(s).unwrap()
}

// The logarithm and the exponential that the caller of the library supplies.

fn ln(value: scrypto::math::PreciseDecimal) -> scrypto::math::PreciseDecimal {
    let v: f64 = value.to_string().parse().unwrap();
    assert!(v > 0.0, "logarithm of a non-positive price");
    scrypto::math::PreciseDecimal::try_from(format!("{:.30}", v.ln())).unwrap()
}

fn exp(value: scrypto::math::Decimal) -> scrypto::math::Decimal {
    let v: f64 = value.to_string().parse().unwrap();
    scrypto::math::Decimal::try_from(format!("{:.18}", v.exp())).unwrap()
}

pub fn log(value: scrypto::math::PreciseDecimal) -> scrypto::math::Decimal {
    ln(value)
        .checked_truncate(RoundingMode::ToNegativeInfinity)
        .unwrap()
}

pub fn test_datapoints() -> Vec<scrypto::math::PreciseDecimal> {
    vec![
        pdec("1.000250018750976587"),
        pdec("1.047129016204468108769812532645"),
        pdec("0.998741205388103276"),
        pdec("1.1"),
        pdec("0.953602148030917045229876112203945617"),
        pdec("1.224744871391589049098642037352945695"),
        pdec("2.236067977499789696409173668731276235"),
        pdec("0.707106781186547524400844362104849039"),
        pdec("1.000000000000000001"),
        pdec("1.414213562373095048801688724209698078"),
        pdec("0.31622776601683793319988935444327185"),
        pdec("3.16227766016837933199889354443271853"),
        pdec("1.5"),
        pdec("0.999999999999999999999999999999999999"),
        pdec("1.732050807568877293527446341505872366"),
        pdec("1.002496882788171067537936031555"),
        pdec("0.577350269189625764509148780501957455"),
        pdec("10.488088481701515469914535136799375984"),
        pdec("1.048808848170151546991453513679937598"),
        pdec("0.9"),
    ]
}

fn dummy_price_sqrt() -> scrypto::math::PreciseDecimal {
    pdec("1.1")
}

fn stored(timestamp: u64, price_sqrt_log_acc: scrypto::math::Decimal) -> AccumulatedObservation {
    AccumulatedObservation {
        timestamp,
        price_sqrt_log_acc: lib_decimal(price_sqrt_log_acc),
    }
}

fn interval(start: u64, end: u64, price_sqrt: scrypto::math::Decimal) -> ObservationInterval {
    ObservationInterval {
        start,
        end,
        price_sqrt: lib_decimal(price_sqrt),
    }
}

pub trait Approximate {
    fn approximate(&self) -> Self;
}

impl Approximate for AccumulatedObservation {
    fn approximate(&self) -> Self {
        let decimal_places = 15;
        Self {
            timestamp: self.timestamp,
            price_sqrt_log_acc: lib_decimal(
                radix_decimal(self.price_sqrt_log_acc)
                    .checked_round(decimal_places, RoundingMode::ToNegativeInfinity)
                    .unwrap(),
            ),
        }
    }
}

/// An oracle with a clock that the test sets, and with the logarithm and the
/// exponential that the library asks its caller for.
pub struct OracleTestHelper {
    pub oracle: Oracle,
    pub now: u64,
}

impl OracleTestHelper {
    pub fn new() -> Self {
        OracleTestHelper {
            oracle: Oracle::new(OBSERVATIONS_LIMIT),
            now: 60,
        }
    }

    pub fn new_with_limit(limit: u16) -> Self {
        OracleTestHelper {
            oracle: Oracle::new(limit),
            now: 60,
        }
    }

    pub fn new_with_observations_minutes(timestamps: &Vec<u64>) -> Self {
        let mut helper = OracleTestHelper::new();
        helper.add_observations_in_minutes(timestamps);
        helper
    }

    pub fn new_with_swap_state_seconds(seconds: &Vec<u64>) -> Self {
        let mut helper = OracleTestHelper::new();
        helper.add_swap_state_seconds(seconds);
        helper
    }

    pub fn add_observations_in_minutes(&mut self, minutes: &Vec<u64>) {
        let seconds: Vec<u64> = minutes.iter().map(|value| value * 60).collect();
        self.add_observations_in_seconds(&seconds);
    }

    pub fn add_observations_in_seconds(&mut self, timestamps: &Vec<u64>) {
        if timestamps.is_empty() {
            return;
        }
        let prices = test_datapoints();
        assert!(timestamps.len() + 1 <= 20);
        let mut timestamps = timestamps.clone();
        timestamps.insert(0, timestamps[0] - 60);
        for (timestamp, price_sqrt) in timestamps.iter().zip(prices) {
            self.jump_to_timestamp_seconds(*timestamp);
            self.after_swap(price_sqrt).unwrap();
        }
    }

    pub fn add_swap_state_seconds(&mut self, timestamps: &Vec<u64>) {
        let prices = test_datapoints();
        assert!(timestamps.len() <= 20);
        for (timestamp, price_sqrt) in timestamps.iter().zip(prices) {
            self.jump_to_timestamp_seconds(*timestamp);
            self.after_swap(price_sqrt).unwrap();
        }
    }

    fn logs_of(prices: MinutePrices) -> MinuteLogs {
        MinuteLogs {
            finalized_ln: lib_precise(ln(radix_precise(prices.finalized))),
            last_ln: lib_precise(ln(radix_precise(prices.last))),
        }
    }

    pub fn after_swap(
        &mut self,
        price_sqrt: scrypto::math::PreciseDecimal,
    ) -> Result<(), OracleError> {
        let now = Instant::new(self.now);
        if let Some(sub) = self.oracle.sub_observations() {
            assert!(self.now >= sub.last_updated().seconds_since_unix_epoch);
        }
        match self.oracle.observe(lib_precise(price_sqrt), now, None) {
            Err(OracleError::LogsNeeded) => {
                let logs = Self::logs_of(self.oracle.closing_prices(now)?.unwrap());
                self.oracle.observe(lib_precise(price_sqrt), now, Some(logs))
            }
            result => result,
        }
    }

    pub fn after_swap_default(&mut self) -> Result<(), OracleError> {
        self.after_swap(dummy_price_sqrt())
    }

    fn live_logs(&self) -> Result<MinuteLogs, OracleError> {
        Ok(Self::logs_of(self.oracle.live_prices()?.unwrap()))
    }

    pub fn observation(&self, seconds: u64) -> Result<AccumulatedObservation, OracleError> {
        let now = Instant::new(self.now);
        match self.oracle.observation(seconds, now, None) {
            Err(OracleError::LogsNeeded) => {
                let logs = self.live_logs()?;
                self.oracle.observation(seconds, now, Some(logs))
            }
            result => result,
        }
    }

    pub fn observation_in_minutes(
        &self,
        minutes: u64,
    ) -> Result<AccumulatedObservation, OracleError> {
        self.observation(minutes * 60)
    }

    pub fn observation_intervals(
        &self,
        intervals: Vec<(u64, u64)>,
    ) -> Result<Vec<ObservationInterval>, OracleError> {
        let now = Instant::new(self.now);
        let means = match self.oracle.observation_intervals(intervals.clone(), now, None) {
            Err(OracleError::LogsNeeded) => {
                let logs = self.live_logs()?;
                self.oracle.observation_intervals(intervals, now, Some(logs))
            }
            result => result,
        }?;
        Ok(means
            .iter()
            .map(|mean| {
                mean.with_price_sqrt(lib_decimal(exp(radix_decimal(mean.price_sqrt_log))))
            })
            .collect())
    }

    pub fn observations_limit(&self) -> u16 {
        self.oracle.observations_limit()
    }

    pub fn observations_stored(&self) -> u16 {
        self.oracle.observations_stored()
    }

    pub fn last_observation_index(&self) -> Option<u16> {
        self.oracle.last_observation_index()
    }

    pub fn oldest_observation_timestamp(&self) -> Option<u64> {
        self.oracle.oldest_observation_timestamp()
    }

    pub fn jump_to_timestamp_seconds(&mut self, seconds: u64) {
        self.now = seconds;
    }

    pub fn jump_to_timestamp_minutes(&mut self, minutes: u64) {
        self.jump_to_timestamp_seconds(minutes * 60);
    }
}

pub fn assert_observations_batch(seconds: &Vec<u64>, expected: Vec<AccumulatedObservation>) {
    let helper = OracleTestHelper::new_with_swap_state_seconds(seconds);

    let mut output: Vec<AccumulatedObservation> = vec![];
    for observation in expected.iter() {
        output.push(helper.observation(observation.timestamp).unwrap());
    }
    let observations_stored = helper.observations_stored();

    assert_eq!(output, expected.clone());
    assert_eq!(observations_stored, expected.len() as u16);
}

pub fn assert_vecs_similar(
    mut outputs: Vec<AccumulatedObservation>,
    mut expected: Vec<AccumulatedObservation>,
) {
    for obj in &mut outputs {
        *obj = obj.approximate();
    }

    for obj in &mut expected {
        *obj = obj.approximate();
    }

    assert_eq!(outputs, expected);
}

// The expected values, computed apart from the library.

fn accumulated_log(
    acc_log: scrypto::math::Decimal,
    finalized: scrypto::math::PreciseDecimal,
    leaked_value: scrypto::math::PreciseDecimal,
    minutes_since_last: u64,
) -> scrypto::math::Decimal {
    let leaked_value_log = log(leaked_value);
    let finalized_log = log(finalized);
    let minutes_since_last = if minutes_since_last >= 1 {
        minutes_since_last
    } else {
        1
    };

    acc_log + finalized_log + leaked_value_log * (minutes_since_last - 1)
}

pub fn weighted_average(
    values: Vec<scrypto::math::PreciseDecimal>,
    weights: Vec<u64>,
) -> scrypto::math::PreciseDecimal {
    let mut weighted_sum = scrypto::math::PreciseDecimal::ZERO;
    for i in 0..weights.len() {
        weighted_sum += values[i] * weights[i];
    }

    let normalization: u64 = weights.iter().sum();

    weighted_sum / normalization
}

fn find_indexes_of_value<T: PartialEq>(values: &[T], target: T) -> Vec<usize> {
    values
        .iter()
        .enumerate()
        .filter_map(|(index, value)| if *value == target { Some(index) } else { None })
        .collect()
}

fn get_elements_by_indexes<T: Clone>(values: &[T], indexes: &[usize]) -> Vec<T> {
    indexes
        .iter()
        .filter_map(|&index| values.get(index))
        .cloned()
        .collect()
}

fn consecutive_differences(numbers: &[u64]) -> Vec<u64> {
    numbers
        .windows(2)
        .map(|window| window[1] - window[0])
        .collect()
}

pub fn generate_oracle_data(
    seconds: &Vec<u64>,
) -> (
    Vec<scrypto::math::PreciseDecimal>,
    Vec<AccumulatedObservation>,
    scrypto::math::PreciseDecimal,
) {
    assert_ne!(seconds[0], 0);
    let values = test_datapoints();

    let timestamps_minutes: Vec<u64> = seconds.iter().map(|v| v / 60).collect();
    let unique_minutes: Vec<u64> = timestamps_minutes
        .iter()
        .copied()
        .collect::<std::collections::BTreeSet<u64>>()
        .into_iter()
        .collect();

    let mut averages: Vec<scrypto::math::PreciseDecimal> = vec![];

    let mut last_values: Vec<scrypto::math::PreciseDecimal> = vec![];
    for (i, &minute) in unique_minutes.iter().enumerate() {
        let same_minute_indexes = find_indexes_of_value(&timestamps_minutes, minute);

        let same_minute_seconds = get_elements_by_indexes(&seconds, &same_minute_indexes);
        let same_minute_values = get_elements_by_indexes(&values, &same_minute_indexes);

        let consecutive_differences = consecutive_differences(&same_minute_seconds);

        let mut same_minute_sum = scrypto::math::PreciseDecimal::ZERO;
        for i in 0..consecutive_differences.len() {
            same_minute_sum += same_minute_values[i] * consecutive_differences[i];
        }

        // Add last value
        same_minute_sum +=
            (60 - (same_minute_seconds.last().unwrap() % 60)) * *same_minute_values.last().unwrap();

        // Add value from previous minute that leaked into current one
        let leaked_value = last_values
            .last()
            .cloned()
            .unwrap_or(scrypto::math::PreciseDecimal::ZERO);
        same_minute_sum += leaked_value * (same_minute_seconds[0] % 60);

        let total_duration: u64 = if i != 0 {
            60
        } else {
            60 - (same_minute_seconds.first().unwrap() % 60)
        };

        last_values.push(same_minute_values.last().unwrap().clone());

        let same_minute_avg = same_minute_sum / total_duration;
        averages.push(same_minute_avg);
    }

    let mut accumulated_observations: Vec<(u64, scrypto::math::Decimal)> = vec![];

    // Calculate accumulated observations
    if unique_minutes.len() < 2 {
        // No observations if less than 2 unique minutes
        return (averages, vec![], last_values.last().unwrap().clone());
    }

    // Push first observation
    let time_since_beginning = unique_minutes[1] - unique_minutes[0];
    accumulated_observations.push((
        unique_minutes[1] * 60,
        accumulated_log(
            scrypto::math::Decimal::ZERO,
            averages[0],
            last_values[0],
            time_since_beginning,
        ),
    ));

    for i in 2..unique_minutes.len() {
        let last_observation = accumulated_observations.last().unwrap();

        let time_since_last_obs = unique_minutes[i] - unique_minutes[i - 1];
        let price_sqrt_log_acc = accumulated_log(
            last_observation.1,
            averages[i - 1],
            last_values[i - 1],
            time_since_last_obs,
        );

        accumulated_observations.push((unique_minutes[i] * 60, price_sqrt_log_acc));
    }
    (
        averages,
        accumulated_observations
            .iter()
            .map(|(timestamp, acc)| stored(*timestamp, *acc))
            .collect(),
        last_values.last().unwrap().clone(),
    )
}

pub fn get_averages_from_swap_seconds(seconds: &Vec<u64>) -> Vec<scrypto::math::PreciseDecimal> {
    generate_oracle_data(&seconds).0
}

pub fn get_observations_from_swap_seconds(seconds: &Vec<u64>) -> Vec<AccumulatedObservation> {
    generate_oracle_data(&seconds).1
}

pub fn get_observations_from_observation_minutes(
    minutes: &Vec<u64>,
) -> Vec<AccumulatedObservation> {
    let seconds = convert_observation_minutes_to_swap_state_seconds(&minutes);
    generate_oracle_data(&seconds).1
}

pub fn find_neighbors(
    observations: &Vec<AccumulatedObservation>,
    target_seconds: u64,
) -> (AccumulatedObservation, AccumulatedObservation) {
    let mut left = None;
    let mut right = None;

    for obs in observations {
        let timestamp = obs.timestamp;
        if timestamp <= target_seconds {
            left = Some(obs.clone());
        }
        if timestamp >= target_seconds && right.is_none() {
            right = Some(obs.clone());
            // If the right value is found, we don't need to continue the loop
            break;
        }
    }

    if right.is_none() {
        right = left.clone();
    }

    (left.unwrap(), right.unwrap())
}

pub fn arithmetic_mean(
    x_left_seconds: u64,
    x_right_seconds: u64,
    y_left: scrypto::math::Decimal,
    y_right: scrypto::math::Decimal,
) -> scrypto::math::Decimal {
    ((y_right - y_left) * 60u64) / (x_right_seconds - x_left_seconds) //convert to minutes since that's how we accumulate
}

pub fn geometric_mean(
    x_left_seconds: u64,
    x_right_seconds: u64,
    y_left: scrypto::math::Decimal,
    y_right: scrypto::math::Decimal,
) -> scrypto::math::Decimal {
    let exponent = arithmetic_mean(x_left_seconds, x_right_seconds, y_left, y_right);
    exp(exponent)
}

fn interpolate_with_neighbors_(
    neighbors: (AccumulatedObservation, AccumulatedObservation),
    target: u64,
) -> AccumulatedObservation {
    let (left, right) = neighbors;

    assert!(left.timestamp <= right.timestamp);

    if target == left.timestamp {
        return left;
    }

    if target == right.timestamp {
        return right;
    }

    let slope = (radix_decimal(right.price_sqrt_log_acc) - radix_decimal(left.price_sqrt_log_acc))
        / (right.timestamp - left.timestamp);

    let y_target = radix_decimal(left.price_sqrt_log_acc) + slope * (target - left.timestamp);

    stored(target, y_target)
}

fn interpolate(
    observations: &Vec<AccumulatedObservation>,
    target_seconds: u64,
) -> AccumulatedObservation {
    let neighbors = find_neighbors(observations, target_seconds);

    if neighbors.0.timestamp == target_seconds {
        return neighbors.0;
    }

    if neighbors.1.timestamp == target_seconds {
        return neighbors.1;
    }

    let interpolated = interpolate_with_neighbors_(neighbors, target_seconds);

    interpolated
}

pub fn get_observation(
    observations: &Vec<AccumulatedObservation>,
    target_seconds: u64,
) -> AccumulatedObservation {
    let target_seconds = (target_seconds / 60) * 60;
    interpolate(observations, target_seconds)
}

pub fn interpolate_batch_seconds(
    observations: &Vec<AccumulatedObservation>,
    seconds: &Vec<u64>,
) -> Vec<AccumulatedObservation> {
    let mut result: Vec<AccumulatedObservation> = vec![];

    for &seconds_ in seconds {
        result.push(get_observation(observations, seconds_));
    }

    result
}

pub fn interpolate_batch_minutes(
    observations: &Vec<AccumulatedObservation>,
    minutes: &Vec<u64>,
) -> Vec<AccumulatedObservation> {
    let seconds = minutes.iter().map(|min| min * 60).collect();
    interpolate_batch_seconds(&observations, &seconds)
}

fn get_interval_(seconds: &Vec<u64>, left_seconds: u64, right_seconds: u64) -> ObservationInterval {
    let observations = get_observations_from_swap_seconds(seconds);

    let left_seconds = (left_seconds / 60) * 60;
    let right_seconds = (right_seconds / 60) * 60;

    let left_interpolated = get_observation(&observations, left_seconds);

    let right_interpolated = get_observation(&observations, right_seconds);

    let average_price_sqrt = geometric_mean(
        left_seconds,
        right_seconds,
        radix_decimal(left_interpolated.price_sqrt_log_acc),
        radix_decimal(right_interpolated.price_sqrt_log_acc),
    );

    interval(left_seconds, right_seconds, average_price_sqrt)
}

pub fn convert_observation_minutes_to_swap_state_seconds(minutes: &Vec<u64>) -> Vec<u64> {
    let mut minutes = minutes.clone();
    minutes.insert(0, minutes[0] - 1);
    let seconds = minutes.iter().map(|min| min * 60).collect();
    seconds
}

pub fn get_intervals_from_swap_seconds(
    seconds: &Vec<u64>,
    bounds: &Vec<(u64, u64)>,
) -> Vec<ObservationInterval> {
    let mut result: Vec<ObservationInterval> = vec![];
    for &(left, right) in bounds {
        result.push(get_interval_(seconds, left, right));
    }
    result
}

pub fn get_intervals_from_observation_minutes(
    minutes: &Vec<u64>,
    bounds_minutes: &Vec<(u64, u64)>,
) -> Vec<ObservationInterval> {
    let seconds = convert_observation_minutes_to_swap_state_seconds(minutes);
    let bounds = bounds_minutes
        .iter()
        .map(|(left, right)| (left * 60, right * 60))
        .collect();
    let result = get_intervals_from_swap_seconds(&seconds, &bounds);
    result
}

// Creation

#[test]
fn test_instantiate_instant() {
    let helper = OracleTestHelper::new();
    assert_eq!(helper.observations_stored(), 0);
    assert_eq!(helper.last_observation_index(), None);
    assert!(helper.oracle.sub_observations().is_none());
}

// Ranges

#[test]
fn test_get_observation_for_timestamp_outside_range_before() {
    let mut helper = OracleTestHelper::new();

    helper.jump_to_timestamp_minutes(5);
    helper.after_swap_default().unwrap();
    helper.jump_to_timestamp_minutes(10);
    helper.after_swap_default().unwrap();
    helper.jump_to_timestamp_minutes(15);
    helper.after_swap_default().unwrap();
    helper.jump_to_timestamp_minutes(20);

    // Older than oldest observation
    assert_eq!(
        helper.observation_in_minutes(4),
        Err(OracleError::TimestampOutOfRange)
    );
}

#[test]
fn test_get_observation_for_timestamp_outside_range_after() {
    let mut helper = OracleTestHelper::new();

    helper.jump_to_timestamp_minutes(5);
    helper.after_swap_default().unwrap();
    helper.jump_to_timestamp_minutes(10);
    helper.after_swap_default().unwrap();
    helper.jump_to_timestamp_minutes(15);
    helper.after_swap_default().unwrap();
    helper.jump_to_timestamp_minutes(20);

    // After current time
    assert_eq!(
        helper.observation_in_minutes(21),
        Err(OracleError::TimestampOutOfRange)
    );
}

#[test]
fn test_get_observation_for_timestamp_inside_range_after() {
    let mut helper = OracleTestHelper::new();

    helper.jump_to_timestamp_minutes(5);
    helper.after_swap_default().unwrap();
    helper.jump_to_timestamp_minutes(10);
    helper.after_swap_default().unwrap();
    helper.jump_to_timestamp_minutes(15);
    helper.after_swap_default().unwrap();
    helper.jump_to_timestamp_minutes(20);

    // After latest observation but before current time
    assert!(helper.observation_in_minutes(16).is_ok());
}

#[test]
fn test_get_observation_for_timestamp_in_range() {
    let mut helper = OracleTestHelper::new();

    helper.jump_to_timestamp_minutes(5 - 1);
    helper.after_swap_default().unwrap();

    helper.jump_to_timestamp_minutes(5);
    helper.after_swap_default().unwrap();
    helper.jump_to_timestamp_minutes(10);
    helper.after_swap_default().unwrap();
    helper.jump_to_timestamp_minutes(15);
    helper.after_swap_default().unwrap();
    helper.jump_to_timestamp_minutes(20);

    // Oldest observation
    assert!(helper.observation_in_minutes(5).is_ok());

    // Non-existing observation in range
    assert!(helper.observation_in_minutes(9).is_ok());

    // Existing observation in range
    assert!(helper.observation_in_minutes(10).is_ok());

    // Newest observation
    assert!(helper.observation_in_minutes(15).is_ok());

    // Non-existing, later than most recent observation
    assert!(helper.observation_in_minutes(17).is_ok());

    // Non-existing, after current time
    assert!(helper.observation_in_minutes(21).is_err());
}

// Observations limit

#[test]
fn test_observations_limit() {
    let helper = OracleTestHelper::new();
    let outputs: Vec<u16> = vec![helper.observations_limit()];

    assert_eq!(outputs, vec![10]);
}

// Observations stored

#[test]
fn test_observations_stored_0() {
    let helper = OracleTestHelper::new();

    let outputs: Vec<u16> = vec![helper.observations_stored()];

    assert_eq!(outputs, vec![0]);
}

#[test]
fn test_observations_stored_1() {
    let timestamps: Vec<u64> = (4..5).collect();
    let helper = OracleTestHelper::new_with_observations_minutes(&timestamps);

    let outputs: Vec<u16> = vec![helper.observations_stored()];

    assert_eq!(outputs, vec![1]);
}

#[test]
fn test_observations_stored_10() {
    let timestamps: Vec<u64> = (4..14).collect();
    let helper = OracleTestHelper::new_with_observations_minutes(&timestamps);

    let outputs: Vec<u16> = vec![helper.observations_stored()];

    assert_eq!(outputs, vec![10]);
}

#[test]
fn test_observations_stored_15() {
    let timestamps: Vec<u64> = (4..15).collect();
    let helper = OracleTestHelper::new_with_observations_minutes(&timestamps);

    let outputs: Vec<u16> = vec![helper.observations_stored()];

    assert_eq!(outputs, vec![10]);
}

// Only the first price in a minute stores an observation

#[test]
fn test_observations_stored_repeated_timestamp() {
    let timestamps: Vec<u64> = vec![4, 4, 4, 4];
    let helper = OracleTestHelper::new_with_observations_minutes(&timestamps);

    let outputs: Vec<u16> = vec![helper.observations_stored()];

    assert_eq!(outputs, vec![1]);
}

#[test]
fn test_observations_stored_repeated_timestamp_2() {
    let timestamps: Vec<u64> = vec![4, 5, 5, 7];
    let helper = OracleTestHelper::new_with_observations_minutes(&timestamps);

    let outputs: Vec<u16> = vec![helper.observations_stored()];

    assert_eq!(outputs, vec![3]);
}

// Last observation index

fn check_last_observation_index(timestamps: std::ops::Range<u64>, expected: Option<u16>) {
    let timestamps: Vec<u64> = timestamps.collect();
    let helper = OracleTestHelper::new_with_observations_minutes(&timestamps);

    let outputs: Vec<Option<u16>> = vec![helper.last_observation_index()];

    assert_eq!(outputs, vec![expected]);
}

#[test]
fn test_last_observation_index_none() {
    check_last_observation_index(4..4, None);
}

#[test]
fn test_last_observation_index_one() {
    check_last_observation_index(4..5, Some(0));
}

#[test]
fn test_last_observation_index_full() {
    check_last_observation_index(4..14, Some(9));
}

#[test]
fn test_last_observation_index_wrapped() {
    check_last_observation_index(4..15, Some(0));
}

#[test]
fn test_last_observation_index_wrapped_twice() {
    check_last_observation_index(4..16, Some(1));
}

// Oldest observation timestamp

fn check_oldest_observation_timestamp(timestamps: std::ops::Range<u64>, expected: Option<u64>) {
    let timestamps: Vec<u64> = timestamps.collect();
    let helper = OracleTestHelper::new_with_observations_minutes(&timestamps);

    let outputs: Vec<Option<u64>> = vec![helper.oldest_observation_timestamp()];

    assert_eq!(outputs, vec![expected]);
}

#[test]
fn test_oldest_observation_timestamp_none() {
    check_oldest_observation_timestamp(4..4, None);
}

#[test]
fn test_oldest_observation_timestamp_one() {
    check_oldest_observation_timestamp(4..5, Some(240));
}

#[test]
fn test_oldest_observation_timestamp_full() {
    check_oldest_observation_timestamp(4..14, Some(240));
}

#[test]
fn test_oldest_observation_timestamp_wrapped() {
    check_oldest_observation_timestamp(4..15, Some(300));
}

#[test]
fn test_oldest_observation_timestamp_wrapped_twice() {
    check_oldest_observation_timestamp(4..16, Some(360));
}

// Special cases of a query

#[test]
fn test_observation_timestamp_older_than_oldest_fails() {
    let minutes: Vec<u64> = (2..20).collect();
    let helper = OracleTestHelper::new_with_observations_minutes(&minutes);

    assert_eq!(
        helper.observation_in_minutes(9),
        Err(OracleError::TimestampOutOfRange)
    );
    assert!(helper.observation_in_minutes(10).is_ok());
}

#[test]
fn test_observation_timestamp_equals_last_timestamp() {
    let timestamps: Vec<u64> = (4..8).collect();
    let helper = OracleTestHelper::new_with_observations_minutes(&timestamps);

    let outputs: Vec<AccumulatedObservation> = vec![helper.observation_in_minutes(7).unwrap()];

    let expected_observations = get_observations_from_observation_minutes(&timestamps);
    let expected = interpolate_batch_minutes(&expected_observations, &vec![7]);

    assert_eq!(outputs, expected);
}

#[test]
fn test_observation_timestamp_later_than_last_but_before_current() {
    let minutes: Vec<u64> = (4..7).collect();

    let mut helper = OracleTestHelper::new_with_observations_minutes(&minutes);
    helper.jump_to_timestamp_minutes(20);
    let outputs: Vec<AccumulatedObservation> = vec![helper.observation_in_minutes(12).unwrap()];

    let seconds = convert_observation_minutes_to_swap_state_seconds(&minutes);
    let (averages, observations, last_value) = generate_oracle_data(&seconds);

    let last_observation = observations.last().unwrap();
    let last_average = averages.last().unwrap().clone();

    let price_sqrt_log_acc = accumulated_log(
        radix_decimal(last_observation.price_sqrt_log_acc),
        last_average,
        last_value,
        6,
    );

    let expected = vec![stored(12 * 60, price_sqrt_log_acc)];

    assert_eq!(outputs, expected);
}

// Binary search

fn check_binary_search_observations(
    minutes: std::ops::Range<u64>,
    target_minutes: std::ops::Range<usize>,
    expect_success: bool,
) {
    let minutes: Vec<u64> = minutes.collect();

    let helper = OracleTestHelper::new_with_observations_minutes(&minutes);
    let expected_stored = get_observations_from_observation_minutes(&minutes);

    let mut expected: Vec<AccumulatedObservation> = vec![];
    let mut output: Vec<AccumulatedObservation> = vec![];
    for minute in target_minutes {
        let seconds = (minute * 60) as u64;
        if expect_success {
            output.push(helper.observation(seconds).unwrap());
            expected.push(get_observation(&expected_stored, seconds));
        } else {
            assert!(helper.observation(seconds).is_err());
        }
    }

    if !expect_success {
        return;
    }

    assert_eq!(output, expected);
}

#[test]
fn test_binary_search_observations_one() {
    // last observation returned directly (no binary search)
    check_binary_search_observations(4..5, 4..5, true);
}

#[test]
fn test_binary_search_observations_two() {
    check_binary_search_observations(4..6, 4..6, true);
}

#[test]
fn test_binary_search_observations_two_only_last() {
    // last observation returned directly (no binary search)
    check_binary_search_observations(4..6, 5..6, true);
}

#[test]
fn test_binary_search_observations_second_last() {
    check_binary_search_observations(4..9, 7..8, true);
}

#[test]
fn test_binary_search_observations_even() {
    check_binary_search_observations(4..14, 4..14, true);
}

#[test]
fn test_binary_search_observations_odd() {
    check_binary_search_observations(4..13, 4..13, true);
}

#[test]
fn test_binary_search_observations_even_above_limit() {
    check_binary_search_observations(4..20, 10..20, true);
}

#[test]
fn test_binary_search_observations_odd_above_limit() {
    check_binary_search_observations(4..15, 5..15, true);
}

#[test]
fn test_binary_search_observations_even_too_old_above_shift() {
    check_binary_search_observations(4..20, 9..10, false);
}

#[test]
fn test_binary_search_observations_odd_too_old_above_limit() {
    check_binary_search_observations(4..15, 4..5, false);
}

#[test]
fn test_binary_search_observations_timestamp_equals_last_timestamp() {
    check_binary_search_observations(4..8, 4..8, true);
}

#[test]
fn test_binary_search_observations_later_than_current_time_fails() {
    check_binary_search_observations(4..8, 8..9, false);
}

// Interpolation

#[test]
fn test_interpolation() {
    let timestamps: Vec<u64> = vec![3, 6, 10];

    let helper = OracleTestHelper::new_with_observations_minutes(&timestamps);
    let outputs: Vec<AccumulatedObservation> = vec![
        helper.observation_in_minutes(4).unwrap(),
        helper.observation_in_minutes(8).unwrap(),
    ];

    let observations_expected = get_observations_from_observation_minutes(&timestamps);
    let expected = vec![
        get_observation(&observations_expected, 4 * 60),
        get_observation(&observations_expected, 8 * 60),
    ];

    assert_vecs_similar(outputs, expected);
}

// Intervals

#[test]
fn test_observation_intervals_left_lesser_than_right() {
    let minutes: Vec<u64> = (4..9).collect();
    let intervals: Vec<(u64, u64)> = vec![(6, 7), (7, 8)];

    let intervals_in_seconds: Vec<(u64, u64)> = intervals
        .iter()
        .map(|(start, end)| (start * 60, end * 60))
        .collect();

    let helper = OracleTestHelper::new_with_observations_minutes(&minutes);
    let result: Vec<Vec<ObservationInterval>> =
        vec![helper.observation_intervals(intervals_in_seconds).unwrap()];

    let expected = get_intervals_from_observation_minutes(&minutes, &intervals);

    assert_eq!(result, vec![expected]);
}

#[test]
fn test_observation_intervals_left_bigger_than_right() {
    let timestamps: Vec<u64> = (4..9).collect();
    let intervals: Vec<(u64, u64)> = vec![(6, 7), (7, 6)];

    let intervals_in_seconds: Vec<(u64, u64)> = intervals
        .iter()
        .map(|(start, end)| (start * 60, end * 60))
        .collect();

    let helper = OracleTestHelper::new_with_observations_minutes(&timestamps);

    assert_eq!(
        helper.observation_intervals(intervals_in_seconds),
        Err(OracleError::EmptyInterval)
    );
}

#[test]
fn test_observation_intervals_left_equal_right() {
    let timestamps: Vec<u64> = (4..9).collect();
    let intervals: Vec<(u64, u64)> = vec![(6, 7), (7, 7)];

    let intervals_in_seconds: Vec<(u64, u64)> = intervals
        .iter()
        .map(|(start, end)| (start * 60, end * 60))
        .collect();

    let helper = OracleTestHelper::new_with_observations_minutes(&timestamps);

    assert_eq!(
        helper.observation_intervals(intervals_in_seconds),
        Err(OracleError::EmptyInterval)
    );
}

#[test]
fn test_observation_intervals() {
    let timestamps: Vec<u64> = (4..14).collect();

    let intervals: Vec<(u64, u64)> = vec![(4, 13), (5, 7), (7, 12)];
    let intervals_in_seconds: Vec<(u64, u64)> = intervals
        .iter()
        .map(|(start, end)| (start * 60, end * 60))
        .collect();

    let helper = OracleTestHelper::new_with_observations_minutes(&timestamps);
    let outputs: Vec<Vec<ObservationInterval>> =
        vec![helper.observation_intervals(intervals_in_seconds).unwrap()];

    let expected: Vec<Vec<ObservationInterval>> = vec![get_intervals_from_observation_minutes(
        &timestamps,
        &intervals,
    )];

    assert_eq!(outputs, expected);
}

#[test]
fn test_observation_intervals_seconds_rounding() {
    let timestamps: Vec<u64> = (4..14).collect();
    let swap_seconds = convert_observation_minutes_to_swap_state_seconds(&timestamps);

    let intervals_in_seconds: Vec<(u64, u64)> = vec![(635, 660), (660, 735)];

    let helper = OracleTestHelper::new_with_observations_minutes(&timestamps);
    let outputs: Vec<Vec<ObservationInterval>> = vec![helper
        .observation_intervals(intervals_in_seconds.clone())
        .unwrap()];

    let expected: Vec<Vec<ObservationInterval>> = vec![get_intervals_from_swap_seconds(
        &swap_seconds,
        &intervals_in_seconds,
    )];

    assert_eq!(outputs, expected);
}

// Within the first minute

#[test]
fn test_first_minute_same_transaction() {
    let mut helper = OracleTestHelper::new_with_swap_state_seconds(&vec![]);

    let prices = test_datapoints();

    helper.jump_to_timestamp_seconds(120);
    helper.after_swap(prices[0]).unwrap();
    helper.after_swap(prices[1]).unwrap();

    helper.jump_to_timestamp_seconds(180);
    helper.after_swap(prices[2]).unwrap();

    let result: Vec<AccumulatedObservation> = vec![helper.observation(180).unwrap()];

    assert_eq!(result, vec![stored(180, log(prices[1]))]);
}

#[test]
fn oracle_subminutes_test_first_minute_same_transaction() {
    let mut helper = OracleTestHelper::new();
    let prices = test_datapoints();

    helper.jump_to_timestamp_seconds(120);
    helper.after_swap(prices[0]).unwrap();
    helper.after_swap(prices[1]).unwrap();
    assert_eq!(helper.observations_stored(), 0);

    helper.jump_to_timestamp_seconds(180);
    helper.after_swap(prices[2]).unwrap();
    assert_eq!(helper.observations_stored(), 1);

    assert_eq!(helper.observation(180), Ok(stored(180, log(prices[1]))));
}

#[test]
fn test_first_minute_same_second() {
    let seconds: Vec<u64> = vec![90, 90, 90, 120];

    let helper = OracleTestHelper::new_with_swap_state_seconds(&seconds);

    let output: Vec<AccumulatedObservation> = vec![helper.observation(120).unwrap()];

    assert_eq!(output, vec![stored(120, log(test_datapoints()[2]))])
}

#[test]
fn oracle_subminutes_test_first_minute_same_second() {
    let seconds: Vec<u64> = vec![90, 90, 90, 120];
    let replayed = OracleTestHelper::new_with_swap_state_seconds(&seconds);

    let mut single = OracleTestHelper::new();
    single.jump_to_timestamp_seconds(90);
    single.after_swap(test_datapoints()[2]).unwrap();
    single.jump_to_timestamp_seconds(120);
    single.after_swap(test_datapoints()[3]).unwrap();

    assert_eq!(replayed.observation(120), single.observation(120));
    assert_eq!(
        replayed.observation(120),
        Ok(stored(120, log(test_datapoints()[2])))
    );
}

#[test]
fn test_first_minute_multiple_seconds() {
    let seconds: Vec<u64> = vec![90, 105, 105, 110, 110, 110, 120];

    let helper = OracleTestHelper::new_with_swap_state_seconds(&seconds);

    let output: Vec<AccumulatedObservation> = vec![helper.observation(120).unwrap()];

    let weighted_average = weighted_average(test_datapoints(), vec![15, 0, 5, 0, 0, 10]);

    assert_eq!(output, vec![stored(120, log(weighted_average))])
}

#[test]
fn oracle_subminutes_test_first_minute_multiple_seconds() {
    let seconds: Vec<u64> = vec![90, 105, 105, 110, 110, 110, 120];
    let helper = OracleTestHelper::new_with_swap_state_seconds(&seconds);

    let prices = test_datapoints();
    let weighted_average = weighted_average(vec![prices[0], prices[2], prices[5]], vec![15, 5, 10]);

    assert_eq!(
        helper.observation(120),
        Ok(stored(120, log(weighted_average)))
    );
}

fn check_first_minute_multiple_seconds_2(
    seconds: Vec<u64>,
    weights: Vec<u64>,
    inspected_timestamp: u64,
) {
    let helper = OracleTestHelper::new_with_swap_state_seconds(&seconds);

    let output: Vec<AccumulatedObservation> =
        vec![helper.observation(inspected_timestamp).unwrap()];

    let weighted_average = weighted_average(test_datapoints(), weights);

    assert_eq!(
        output,
        vec![stored(inspected_timestamp, log(weighted_average))]
    )
}

#[test]
fn test_first_minute_multiple_seconds_2() {
    check_first_minute_multiple_seconds_2(
        vec![90, 105, 105, 110, 110, 110, 120],
        vec![15, 0, 5, 0, 0, 10],
        120,
    );
}

#[test]
fn test_assert_observations_batch_no_leak() {
    let seconds = vec![70, 75, 85, 120, 130];
    assert_observations_batch(&seconds, get_observations_from_swap_seconds(&seconds));
}

#[test]
fn test_assert_observations_batch_leak() {
    let seconds = vec![70, 75, 85, 125, 135];
    assert_observations_batch(&seconds, get_observations_from_swap_seconds(&seconds));
}

#[test]
fn test_assert_observations_batch_leak_2() {
    let seconds = vec![70, 75, 85, 125, 135, 150, 150, 160, 187, 205];
    assert_observations_batch(&seconds, get_observations_from_swap_seconds(&seconds));
}

#[test]
fn test_assert_observations_batch_big_gap() {
    let seconds = vec![123, 130, 130, 130, 135, 135, 607];
    assert_observations_batch(&seconds, get_observations_from_swap_seconds(&seconds));
}

#[test]
fn test_assert_observations_batch_big_gap_2() {
    let seconds = vec![123, 607, 908];
    assert_observations_batch(&seconds, get_observations_from_swap_seconds(&seconds));
}

// The expected values themselves

fn check_get_averages_from_swap_seconds_single_minute(seconds: Vec<u64>, weights: Vec<u64>) {
    let averages_expected = weighted_average(test_datapoints(), weights);
    let averages_result = get_averages_from_swap_seconds(&seconds);

    assert_eq!(averages_result, vec![averages_expected]);

    let observations_expected: Vec<AccumulatedObservation> = vec![];
    let observations_result = get_observations_from_swap_seconds(&seconds);

    assert_eq!(observations_result, observations_expected);

    let helper = OracleTestHelper::new_with_swap_state_seconds(&seconds);
    assert_eq!(helper.observations_stored(), 0);
    let mut sub = helper.oracle.sub_observations().unwrap();
    let closed = sub.finalize(Instant::new(seconds[0] + 60)).unwrap();
    assert_eq!(radix_precise(closed), averages_expected);
}

#[test]
fn test_get_averages_from_swap_seconds_single_minute_five() {
    check_get_averages_from_swap_seconds_single_minute(
        vec![70, 75, 85, 85, 90],
        vec![5, 10, 0, 5, 30],
    );
}

#[test]
fn test_get_averages_from_swap_seconds_single_minute_four() {
    check_get_averages_from_swap_seconds_single_minute(vec![70, 70, 80, 90], vec![0, 10, 10, 30]);
}

#[test]
fn test_get_averages_from_swap_seconds_single_minute_two() {
    check_get_averages_from_swap_seconds_single_minute(vec![100, 105], vec![5, 15]);
}

#[test]
fn test_get_averages_from_swap_seconds_multi_minute_no_leak() {
    let seconds: Vec<u64> = vec![70, 75, 85, 120, 130];
    let mut averages_expected: Vec<scrypto::math::PreciseDecimal> = vec![];

    let averages_result = get_averages_from_swap_seconds(&seconds);

    averages_expected.push(weighted_average(
        test_datapoints()[0..3].to_vec(),
        vec![5, 10, 35],
    ));
    averages_expected.push(weighted_average(
        test_datapoints()[3..].to_vec(),
        vec![10, 50],
    ));

    assert_eq!(averages_result, averages_expected);

    let observations_result = get_observations_from_swap_seconds(&seconds);
    let mut observations_expected: Vec<AccumulatedObservation> = vec![];
    observations_expected.push(stored(120, log(averages_expected[0])));

    assert_eq!(observations_result, observations_expected);
    assert_observations_batch(&seconds, observations_expected);
}

#[test]
fn test_get_averages_from_swap_seconds_multi_minute_leak() {
    let seconds: Vec<u64> = vec![70, 75, 85, 125, 135];
    let mut averages_expected: Vec<scrypto::math::PreciseDecimal> = vec![];

    let result = get_averages_from_swap_seconds(&seconds);

    averages_expected.push(weighted_average(
        test_datapoints()[0..3].to_vec(),
        vec![5, 10, 35],
    ));
    averages_expected.push(weighted_average(
        test_datapoints()[2..].to_vec(),
        vec![5, 10, 45],
    ));

    assert_eq!(result, averages_expected);

    let observations_result = get_observations_from_swap_seconds(&seconds);
    let mut observations_expected: Vec<AccumulatedObservation> = vec![];
    observations_expected.push(stored(120, log(averages_expected[0])));

    assert_eq!(observations_result, observations_expected);
    assert_observations_batch(&seconds, observations_expected);
}

#[test]
fn test_get_averages_from_swap_seconds_multi_minute_leak_2() {
    let seconds: Vec<u64> = vec![70, 75, 85, 125, 135, 150, 150, 160, 187, 205];
    let mut averages_expected: Vec<scrypto::math::PreciseDecimal> = vec![];

    let result = get_averages_from_swap_seconds(&seconds);

    averages_expected.push(weighted_average(
        test_datapoints()[0..3].to_vec(),
        vec![5, 10, 35],
    ));
    averages_expected.push(weighted_average(
        test_datapoints()[2..8].to_vec(),
        vec![5, 10, 15, 0, 10, 20],
    ));
    averages_expected.push(weighted_average(
        test_datapoints()[7..].to_vec(),
        vec![7, 18, 35],
    ));

    assert_eq!(result, averages_expected);

    let observations_result = get_observations_from_swap_seconds(&seconds);
    let mut observations_expected: Vec<AccumulatedObservation> = vec![];
    observations_expected.push(stored(120, log(averages_expected[0])));
    observations_expected.push(stored(
        180,
        accumulated_log(
            radix_decimal(observations_expected[0].price_sqrt_log_acc),
            averages_expected[1],
            test_datapoints()[7],
            1,
        ),
    ));

    assert_eq!(observations_result, observations_expected);
    assert_observations_batch(&seconds, observations_expected);
}

#[test]
fn test_get_averages_from_swap_seconds_multi_minute_leak_big_gap() {
    let seconds: Vec<u64> = vec![123, 130, 130, 130, 135, 135, 607];
    let mut averages_expected: Vec<scrypto::math::PreciseDecimal> = vec![];

    let result = get_averages_from_swap_seconds(&seconds);

    averages_expected.push(weighted_average(
        test_datapoints()[0..6].to_vec(),
        vec![7, 0, 0, 5, 0, 45],
    ));
    averages_expected.push(weighted_average(test_datapoints()[5..].to_vec(), vec![7, 53]));

    assert_eq!(result, averages_expected);

    let observations_result = get_observations_from_swap_seconds(&seconds);
    let mut observations_expected: Vec<AccumulatedObservation> = vec![];
    observations_expected.push(stored(
        600,
        accumulated_log(
            scrypto::math::Decimal::ZERO,
            averages_expected[0],
            test_datapoints()[5],
            8,
        ),
    ));

    assert_eq!(observations_result, observations_expected);
    assert_observations_batch(&seconds, observations_expected);
}

#[test]
fn test_get_averages_from_swap_seconds_multi_minute_leak_big_gap_2() {
    let seconds: Vec<u64> = vec![123, 607, 908];
    let mut averages_expected: Vec<scrypto::math::PreciseDecimal> = vec![];

    let result = get_averages_from_swap_seconds(&seconds);

    averages_expected.push(weighted_average(test_datapoints()[0..1].to_vec(), vec![57]));
    averages_expected.push(weighted_average(
        test_datapoints()[0..2].to_vec(),
        vec![7, 53],
    ));
    averages_expected.push(weighted_average(test_datapoints()[1..].to_vec(), vec![8, 52]));

    assert_eq!(result, averages_expected);

    let observations_result = get_observations_from_swap_seconds(&seconds);
    let mut observations_expected: Vec<AccumulatedObservation> = vec![];
    observations_expected.push(stored(
        600,
        accumulated_log(
            scrypto::math::Decimal::ZERO,
            averages_expected[0],
            test_datapoints()[0],
            8,
        ),
    ));
    observations_expected.push(stored(
        900,
        accumulated_log(
            radix_decimal(observations_expected[0].price_sqrt_log_acc),
            averages_expected[1],
            test_datapoints()[1],
            5,
        ),
    ));

    assert_eq!(observations_result, observations_expected);
    assert_observations_batch(&seconds, observations_expected);
}

// Neighbours and interpolation of the expected values

fn new_observation(seconds: u64) -> AccumulatedObservation {
    stored(seconds, scrypto::math::Decimal::from(seconds))
}

fn check_find_neighbors(target: u64, left: u64, right: u64) {
    let seconds = vec![180, 300, 360, 480, 600];
    let mut observations: Vec<AccumulatedObservation> = vec![];

    for seconds_ in seconds {
        observations.push(new_observation(seconds_));
    }

    let neighbors = find_neighbors(&observations, target);

    assert_eq!(neighbors, (new_observation(left), new_observation(right)));
}

#[test]
fn test_find_neighbors() {
    check_find_neighbors(180, 180, 180);
    check_find_neighbors(600, 600, 600);
    check_find_neighbors(240, 180, 300);
    check_find_neighbors(420, 360, 480);
    check_find_neighbors(300, 300, 300);
    check_find_neighbors(360, 360, 360);
}

fn check_interpolate_(left: u64, right: u64, target: u64) {
    let left = new_observation(left);
    let right = new_observation(right);

    let result = interpolate_with_neighbors_((left, right), target);

    let expected = stored(target, scrypto::math::Decimal::from(target));

    assert_eq!(result, expected);

    // The library draws the same line.
    if left.timestamp <= target {
        let y = oracle::oracle::linear_interpolation(
            left.timestamp,
            right.timestamp,
            left.price_sqrt_log_acc,
            right.price_sqrt_log_acc,
            target,
        );
        assert_eq!(y, Ok(expected.price_sqrt_log_acc));
    }
}

#[test]
fn test_interpolate_() {
    check_interpolate_(180, 360, 187);
    check_interpolate_(180, 360, 353);
    check_interpolate_(180, 360, 240);
    check_interpolate_(180, 420, 300);
    check_interpolate_(180, 420, 180);
    check_interpolate_(180, 420, 420);
}

fn check_interpolate(target: u64) {
    let seconds = vec![180, 300, 360, 480, 600];
    let mut observations: Vec<AccumulatedObservation> = vec![];

    for seconds_ in seconds {
        observations.push(new_observation(seconds_));
    }

    let result = get_observation(&observations, target);

    let target_rounded = (target / 60) * 60;
    let expected = stored(target_rounded, scrypto::math::Decimal::from(target_rounded));

    assert_eq!(result, expected);
}

#[test]
fn test_interpolate() {
    check_interpolate(187);
    check_interpolate(353);
    check_interpolate(240);
    check_interpolate(300);
    check_interpolate(180);
    check_interpolate(420);
}

fn check_get_interval_average(target_left: u64, target_right: u64) {
    let seconds = vec![180, 300, 360, 480, 600];
    let target_left_rounded = (target_left / 60) * 60;
    let target_right_rounded = (target_right / 60) * 60;

    let observations = get_observations_from_swap_seconds(&seconds);

    let interpolated_left = get_observation(&observations, target_left_rounded);
    let interpolated_right = get_observation(&observations, target_right_rounded);

    let mean = geometric_mean(
        target_left_rounded,
        target_right_rounded,
        radix_decimal(interpolated_left.price_sqrt_log_acc),
        radix_decimal(interpolated_right.price_sqrt_log_acc),
    );

    let expected = interval(target_left_rounded, target_right_rounded, mean);

    let result = get_interval_(&seconds, target_left, target_right);

    assert_eq!(result, expected);
}

#[test]
fn test_get_interval_average() {
    check_get_interval_average(310, 490);
}

#[test]
fn test_get_interval_average_same_minute() {
    let seconds = vec![180, 300, 360, 480, 600];
    let helper = OracleTestHelper::new_with_swap_state_seconds(&seconds);

    assert_eq!(
        helper.observation_intervals(vec![(310, 350)]),
        Err(OracleError::EmptyInterval)
    );
}
