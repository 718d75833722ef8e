//! The persisted, storage-facing shape of repetition rules: a numeric kind
//! discriminant plus optional end-date and day-selector columns, and the
//! checked conversions between that shape and [`Repetition`].

use vstd::prelude::*;
use vstd::string::StringExecFns;

use crate::date::{Date, Weekday};
use crate::errors::MoolahSharedError;
use crate::repetition::{MonthDay, Repetition};

verus! {

/// The four repetition kinds as stored: persisted as the small integers 1
/// (monthly) through 4 (once).
#[derive(Debug, Clone, Copy, PartialEq, Eq, Structural)]
pub enum DbDateRepetition {
    Monthly,
    Weekly,
    Daily,
    Once,
}

impl DbDateRepetition {
    /// The discriminant this kind is persisted as.
    pub open spec fn spec_code(self) -> int {
        match self {
            DbDateRepetition::Monthly => 1,
            DbDateRepetition::Weekly => 2,
            DbDateRepetition::Daily => 3,
            DbDateRepetition::Once => 4,
        }
    }

    /// Decodes a persisted discriminant; exactly 1 through 4 are accepted.
    pub fn from_i16(value: i16) -> (r: Result<DbDateRepetition, MoolahSharedError>)
        ensures
            value == 1 ==> r == Ok::<DbDateRepetition, MoolahSharedError>(DbDateRepetition::Monthly),
            value == 2 ==> r == Ok::<DbDateRepetition, MoolahSharedError>(DbDateRepetition::Weekly),
            value == 3 ==> r == Ok::<DbDateRepetition, MoolahSharedError>(DbDateRepetition::Daily),
            value == 4 ==> r == Ok::<DbDateRepetition, MoolahSharedError>(DbDateRepetition::Once),
            !(1 <= value <= 4) ==> (r matches Err(MoolahSharedError::RepetitionError(m)) && m@
                == "unrecognized repetition variant"@),
            r matches Ok(k) ==> k.spec_code() == value,
    {
        if value == 1 {
            Ok(DbDateRepetition::Monthly)
        } else if value == 2 {
            Ok(DbDateRepetition::Weekly)
        } else if value == 3 {
            Ok(DbDateRepetition::Daily)
        } else if value == 4 {
            Ok(DbDateRepetition::Once)
        } else {
            Err(MoolahSharedError::RepetitionError("unrecognized repetition variant"))
        }
    }

    /// The discriminant to persist this kind as.
    pub fn as_i16(self) -> (r: i16)
        ensures
            r == self.spec_code(),
    {
        match self {
            DbDateRepetition::Monthly => 1,
            DbDateRepetition::Weekly => 2,
            DbDateRepetition::Daily => 3,
            DbDateRepetition::Once => 4,
        }
    }
}

/// The kind tag of a repetition rule.
pub open spec fn repetition_kind(rep: Repetition) -> DbDateRepetition {
    match rep {
        Repetition::Monthly { .. } => DbDateRepetition::Monthly,
        Repetition::Weekly { .. } => DbDateRepetition::Weekly,
        Repetition::Daily { .. } => DbDateRepetition::Daily,
        Repetition::Once { .. } => DbDateRepetition::Once,
    }
}

impl From<Repetition> for DbDateRepetition {
    /// The kind a rule is persisted under.
    fn from(rep: Repetition) -> (r: DbDateRepetition) {
        match rep {
            Repetition::Monthly { .. } => DbDateRepetition::Monthly,
            Repetition::Weekly { .. } => DbDateRepetition::Weekly,
            Repetition::Daily { .. } => DbDateRepetition::Daily,
            Repetition::Once { .. } => DbDateRepetition::Once,
        }
    }
}

impl vstd::std_specs::convert::FromSpecImpl<Repetition> for DbDateRepetition {
    open spec fn obeys_from_spec() -> bool {
        true
    }

    open spec fn from_spec(rep: Repetition) -> DbDateRepetition {
        repetition_kind(rep)
    }
}

/// A repetition rule in its persisted shape: the kind discriminant, the
/// window, and the day selector columns, with the columns a kind does not
/// use left empty.
#[derive(Debug, Clone, PartialEq, Eq)]
pub struct DbRepetition {
    pub repetition: DbDateRepetition,
    pub start_on: Date,
    pub end_on: Option<Date>,
    pub repeat_day: Option<i16>,
    pub repeat_weekday: Option<String>,
}

/// `r` holds an error of conversion kind with message `msg`.
pub open spec fn conversion_error(r: Result<Repetition, MoolahSharedError>, msg: Seq<char>) -> bool {
    r matches Err(MoolahSharedError::DeltaConversionError(m)) && m@ == msg
}

/// What decoding a persisted rule yields: for each kind, the required
/// columns are checked in order and the first missing or invalid one names
/// the error; with all of them present the rule is rebuilt field by field.
pub open spec fn from_db_spec(db: DbRepetition, r: Result<Repetition, MoolahSharedError>) -> bool {
    match db.repetition {
        DbDateRepetition::Monthly => match db.end_on {
            Option::None => conversion_error(r, "monthly repetition does not have end date"@),
            Option::Some(to) => match db.repeat_day {
                Option::None => conversion_error(
                    r,
                    "monthly repetition does not have repeat day"@,
                ),
                Option::Some(rd) => if !(1 <= rd <= 31) {
                    conversion_error(r, "monthly repetition repeat day is not in range [1, 31]"@)
                } else {
                    r matches Ok(Repetition::Monthly { from, to: t, repeat_on_day }) && from
                        == db.start_on && t == to && repeat_on_day.wf()
                        && repeat_on_day.spec_value() == rd
                },
            },
        },
        DbDateRepetition::Weekly => match db.end_on {
            Option::None => conversion_error(r, "weekly repetition does not have end date"@),
            Option::Some(to) => match db.repeat_weekday {
                Option::None => conversion_error(
                    r,
                    "weekly repetition does not have repeat weekday"@,
                ),
                Option::Some(tok) => if forall|w: Weekday| !w.token_matches(tok@) {
                    conversion_error(r, "could not convert to weekday"@)
                } else {
                    r matches Ok(Repetition::Weekly { from, to: t, repeat_on_weekday }) && from
                        == db.start_on && t == to && repeat_on_weekday.token_matches(tok@)
                },
            },
        },
        DbDateRepetition::Daily => match db.end_on {
            Option::None => conversion_error(r, "daily repetition does not have end date"@),
            Option::Some(to) => r == Ok::<Repetition, MoolahSharedError>(Repetition::Daily { from: db.start_on, to }),
        },
        DbDateRepetition::Once => r == Ok::<Repetition, MoolahSharedError>(Repetition::Once { on: db.start_on }),
    }
}

/// What encoding a rule for storage yields: the matching kind discriminant,
/// the window in the date columns, and only the selector column the kind
/// uses, with weekdays stored under their short English name.
pub open spec fn to_db_spec(rep: Repetition, db: DbRepetition) -> bool {
    match rep {
        Repetition::Monthly { from, to, repeat_on_day } => {
            &&& db.repetition == DbDateRepetition::Monthly
            &&& db.start_on == from
            &&& db.end_on == Some(to)
            &&& db.repeat_day matches Some(d) && d == repeat_on_day.spec_value()
            &&& db.repeat_weekday is None
        },
        Repetition::Weekly { from, to, repeat_on_weekday } => {
            &&& db.repetition == DbDateRepetition::Weekly
            &&& db.start_on == from
            &&& db.end_on == Some(to)
            &&& db.repeat_day is None
            &&& db.repeat_weekday matches Some(s) && s@ == repeat_on_weekday.spec_name()
        },
        Repetition::Daily { from, to } => {
            &&& db.repetition == DbDateRepetition::Daily
            &&& db.start_on == from
            &&& db.end_on == Some(to)
            &&& db.repeat_day is None
            &&& db.repeat_weekday is None
        },
        Repetition::Once { on } => {
            &&& db.repetition == DbDateRepetition::Once
            &&& db.start_on == on
            &&& db.end_on is None
            &&& db.repeat_day is None
            &&& db.repeat_weekday is None
        },
    }
}

impl Repetition {
    /// Rebuilds a rule from its persisted shape, reporting the first
    /// missing or invalid column; columns the kind does not use are ignored.
    pub fn from_db(db: &DbRepetition) -> (r: Result<Repetition, MoolahSharedError>)
        requires
            db.start_on.valid(),
            db.end_on matches Some(d) ==> d.valid(),
        ensures
            from_db_spec(*db, r),
            r matches Ok(rep) ==> rep.wf(),
    {
        match db.repetition {
            DbDateRepetition::Monthly => match db.end_on {
                Option::None => Err(
                    MoolahSharedError::DeltaConversionError(
                        "monthly repetition does not have end date",
                    ),
                ),
                Option::Some(to) => match db.repeat_day {
                    Option::None => Err(
                        MoolahSharedError::DeltaConversionError(
                            "monthly repetition does not have repeat day",
                        ),
                    ),
                    Option::Some(rd) => match MonthDay::new(rd) {
                        Result::Err(_) => Err(
                            MoolahSharedError::DeltaConversionError(
                                "monthly repetition repeat day is not in range [1, 31]",
                            ),
                        ),
                        Result::Ok(day) => Ok(
                            Repetition::Monthly { from: db.start_on, to, repeat_on_day: day },
                        ),
                    },
                },
            },
            DbDateRepetition::Weekly => match db.end_on {
                Option::None => Err(
                    MoolahSharedError::DeltaConversionError(
                        "weekly repetition does not have end date",
                    ),
                ),
                Option::Some(to) => match &db.repeat_weekday {
                    Option::None => Err(
                        MoolahSharedError::DeltaConversionError(
                            "weekly repetition does not have repeat weekday",
                        ),
                    ),
                    Option::Some(tok) => match Weekday::parse(tok.as_str()) {
                        Result::Err(_) => Err(
                            MoolahSharedError::DeltaConversionError("could not convert to weekday"),
                        ),
                        Result::Ok(w) => Ok(
                            Repetition::Weekly { from: db.start_on, to, repeat_on_weekday: w },
                        ),
                    },
                },
            },
            DbDateRepetition::Daily => match db.end_on {
                Option::None => Err(
                    MoolahSharedError::DeltaConversionError(
                        "daily repetition does not have end date",
                    ),
                ),
                Option::Some(to) => Ok(Repetition::Daily { from: db.start_on, to }),
            },
            DbDateRepetition::Once => Ok(Repetition::Once { on: db.start_on }),
        }
    }

    /// Encodes the rule into its persisted shape, with the discriminant
    /// matching the rule's own kind.
    pub fn to_db(&self) -> (r: DbRepetition)
        ensures
            to_db_spec(*self, r),
    {
        match self {
            Repetition::Monthly { from, to, repeat_on_day } => DbRepetition {
                repetition: DbDateRepetition::Monthly,
                start_on: *from,
                end_on: Some(*to),
                repeat_day: Some(repeat_on_day.as_i16()),
                repeat_weekday: None,
            },
            Repetition::Weekly { from, to, repeat_on_weekday } => DbRepetition {
                repetition: DbDateRepetition::Weekly,
                start_on: *from,
                end_on: Some(*to),
                repeat_day: None,
                repeat_weekday: Some(String::from_str(repeat_on_weekday.name())),
            },
            Repetition::Daily { from, to } => DbRepetition {
                repetition: DbDateRepetition::Daily,
                start_on: *from,
                end_on: Some(*to),
                repeat_day: None,
                repeat_weekday: None,
            },
            Repetition::Once { on } => DbRepetition {
                repetition: DbDateRepetition::Once,
                start_on: *on,
                end_on: None,
                repeat_day: None,
                repeat_weekday: None,
            },
        }
    }
}

/// The persisted shape is faithful: encoding a well-formed rule for
/// storage and decoding it again yields the rule itself, for all four
/// kinds.
pub proof fn lemma_db_round_trip(
    rep: Repetition,
    db: DbRepetition,
    r: Result<Repetition, MoolahSharedError>,
)
    requires
        rep.wf(),
        to_db_spec(rep, db),
        from_db_spec(db, r),
    ensures
        r == Ok::<Repetition, MoolahSharedError>(rep),
{
    match rep {
        Repetition::Monthly { from, to, repeat_on_day } => {
            repeat_on_day.lemma_wf_range();
            if let Ok(Repetition::Monthly { from: f2, to: t2, repeat_on_day: d2 }) = r {
                d2.lemma_value_injective(repeat_on_day);
            }
        },
        Repetition::Weekly { from, to, repeat_on_weekday } => {
            repeat_on_weekday.lemma_name_token(repeat_on_weekday);
            if let Ok(Repetition::Weekly { from: f2, to: t2, repeat_on_weekday: w2 }) = r {
                repeat_on_weekday.lemma_name_token(w2);
            }
        },
        Repetition::Daily { from, to } => {},
        Repetition::Once { on } => {},
    }
}

} // verus!
