//! Synthetic sensor readings and the outbound payload, together with its
//! JSON rendering. Temperatures and humidities are carried in tenths of a
//! unit, so the derived values for cycle `n` are exact: sensor 1 reads
//! `15.1 + n` / `25.5 + n`, sensor 2 reads `25.1 + n` / `55.5 + n`.
//!
//! The renderer writes the device id and timestamp verbatim, without JSON
//! escaping: a validated configuration's device id and an ISO-8601 timestamp
//! hold no quotes, backslashes or control characters.
use vstd::prelude::*;

use crate::numerals::append_u64;
use crate::numerals::dec_str;

verus! {

/// One synthetic reading; temperature and humidity in tenths of a unit.
pub struct Sensor {
    pub sensor_id: u8,
    pub temp_tenths: u64,
    pub rh_tenths: u64,
}

pub ghost struct SensorModel {
    pub sensor_id: int,
    pub temp_tenths: int,
    pub rh_tenths: int,
}

impl View for Sensor {
    type V = SensorModel;

    open spec fn view(&self) -> SensorModel {
        SensorModel {
            sensor_id: self.sensor_id as int,
            temp_tenths: self.temp_tenths as int,
            rh_tenths: self.rh_tenths as int,
        }
    }
}

/// The outbound payload: device id, ISO-8601 timestamp, readings in order.
pub struct Data {
    pub dev_id: String,
    pub ts: String,
    pub data: Vec<Sensor>,
}

pub ghost struct DataModel {
    pub dev_id: Seq<char>,
    pub ts: Seq<char>,
    pub data: Seq<SensorModel>,
}

impl View for Data {
    type V = DataModel;

    open spec fn view(&self) -> DataModel {
        DataModel {
            dev_id: self.dev_id@,
            ts: self.ts@,
            data: self.data@.map_values(|s: Sensor| s@),
        }
    }
}

/// The two readings of publish cycle `counter`.
pub fn make_readings(counter: u64) -> (v: Vec<Sensor>)
    requires
        counter <= (u64::MAX - 555) / 10,
    ensures
        v@.len() == 2,
        v@[0]@ == (SensorModel {
            sensor_id: 1,
            temp_tenths: 151 + 10 * (counter as int),
            rh_tenths: 255 + 10 * (counter as int),
        }),
        v@[1]@ == (SensorModel {
            sensor_id: 2,
            temp_tenths: 251 + 10 * (counter as int),
            rh_tenths: 555 + 10 * (counter as int),
        }),
{
    proof {
        assert(10 * (counter as int) + 555 <= u64::MAX) by (nonlinear_arith)
            requires
                counter as int <= ((u64::MAX - 555) as int) / 10,
        {}
    }
    let step: u64 = 10 * counter;
    let mut v: Vec<Sensor> = Vec::new();
    v.push(Sensor { sensor_id: 1, temp_tenths: 151 + step, rh_tenths: 255 + step });
    v.push(Sensor { sensor_id: 2, temp_tenths: 251 + step, rh_tenths: 555 + step });
    v
}

/// Decimal rendering of a value held in tenths: `161` becomes `16.1`.
pub open spec fn tenths_str(v: nat) -> Seq<char> {
    dec_str(v / 10) + seq!['.'] + dec_str(v % 10)
}

/// One sensor object, as the payload's JSON text indents it.
pub open spec fn sensor_json(s: SensorModel) -> Seq<char> {
    "    {\n      \"sensor_id\": "@ + dec_str(s.sensor_id as nat) + ",\n      \"temp\": "@
        + tenths_str(s.temp_tenths as nat) + ",\n      \"rh\": "@ + tenths_str(s.rh_tenths as nat)
        + "\n    }"@
}

/// The sensor objects joined by `,\n`.
pub open spec fn sensors_json(list: Seq<SensorModel>) -> Seq<char>
    decreases list.len(),
{
    if list.len() == 0 {
        Seq::empty()
    } else if list.len() == 1 {
        sensor_json(list[0])
    } else {
        sensor_json(list[0]) + ",\n"@ + sensors_json(list.drop_first())
    }
}

/// The payload's JSON text: two-space indentation, keys in declaration order.
pub open spec fn payload_json(m: DataModel) -> Seq<char> {
    if m.data.len() == 0 {
        "{\n  \"dev_id\": \""@ + m.dev_id + "\",\n  \"ts\": \""@ + m.ts
            + "\",\n  \"data\": []\n}"@
    } else {
        "{\n  \"dev_id\": \""@ + m.dev_id + "\",\n  \"ts\": \""@ + m.ts
            + "\",\n  \"data\": [\n"@ + sensors_json(m.data) + "\n  ]\n}"@
    }
}

proof fn lemma_sensors_json_snoc(list: Seq<SensorModel>, i: int)
    requires
        0 <= i < list.len(),
    ensures
        sensors_json(list.take(i + 1)) == if i == 0 {
            sensor_json(list[0])
        } else {
            sensors_json(list.take(i)) + ",\n"@ + sensor_json(list[i])
        },
    decreases i,
{
    let t = list.take(i + 1);
    if i == 0 {
        assert(t.len() == 1);
        assert(t[0] == list[0]);
    } else {
        let ldf = list.drop_first();
        assert(t.len() == i + 1 >= 2);
        assert(t[0] == list[0]);
        assert(t.drop_first() =~= ldf.take(i));
        lemma_sensors_json_snoc(ldf, i - 1);
        assert(list.take(i).drop_first() =~= ldf.take(i - 1));
        assert(list.take(i)[0] == list[0]);
        assert(ldf[i - 1] == list[i]);
        if i == 1 {
            assert(sensors_json(t) == sensor_json(list[0]) + ",\n"@ + sensor_json(list[1]));
            assert(sensors_json(list.take(1)) == sensor_json(list[0]));
        } else {
            assert(sensors_json(t) == sensor_json(list[0]) + ",\n"@ + (sensors_json(
                ldf.take(i - 1),
            ) + ",\n"@ + sensor_json(list[i])));
            assert(sensors_json(list.take(i)) == sensor_json(list[0]) + ",\n"@ + sensors_json(
                ldf.take(i - 1),
            ));
            assert(sensor_json(list[0]) + ",\n"@ + (sensors_json(ldf.take(i - 1)) + ",\n"@
                + sensor_json(list[i])) =~= (sensor_json(list[0]) + ",\n"@ + sensors_json(
                ldf.take(i - 1),
            )) + ",\n"@ + sensor_json(list[i]));
        }
    }
}

/// Appends `16.1`-style text for a value in tenths.
fn append_tenths(out: &mut String, v: u64)
    ensures
        final(out)@ == old(out)@ + tenths_str(v as nat),
{
    append_u64(out, v / 10);
    out.append(".");
    append_u64(out, v % 10);
    proof {
        reveal_strlit(".");
        assert("."@ =~= seq!['.']);
        assert(out@ =~= old(out)@ + tenths_str(v as nat));
    }
}

fn append_sensor_json(out: &mut String, s: &Sensor)
    ensures
        final(out)@ == old(out)@ + sensor_json(s@),
{
    out.append("    {\n      \"sensor_id\": ");
    append_u64(out, s.sensor_id as u64);
    out.append(",\n      \"temp\": ");
    append_tenths(out, s.temp_tenths);
    out.append(",\n      \"rh\": ");
    append_tenths(out, s.rh_tenths);
    out.append("\n    }");
    proof {
        assert(out@ =~= old(out)@ + sensor_json(s@));
    }
}

/// Renders the payload as the JSON text `payload_json` describes.
pub fn render_payload(d: &Data) -> (r: String)
    ensures
        r@ == payload_json(d@),
{
    let mut out = String::from_str("{\n  \"dev_id\": \"");
    out.append(d.dev_id.as_str());
    out.append("\",\n  \"ts\": \"");
    out.append(d.ts.as_str());
    if d.data.len() == 0 {
        out.append("\",\n  \"data\": []\n}");
        proof {
            assert(d@.data.len() == 0);
            assert(out@ =~= payload_json(d@));
        }
        out
    } else {
        out.append("\",\n  \"data\": [\n");
        let mut body = String::new();
        let ghost view: Seq<SensorModel> = d@.data;
        let mut i: usize = 0;
        while i < d.data.len()
            invariant
                view == d@.data,
                view.len() == d.data.len(),
                forall|j: int| 0 <= j < view.len() ==> view[j] == d.data@[j]@,
                0 <= i <= view.len(),
                body@ == sensors_json(view.take(i as int)),
            decreases view.len() - i,
        {
            if i > 0 {
                body.append(",\n");
            }
            let s = &d.data[i];
            append_sensor_json(&mut body, s);
            proof {
                lemma_sensors_json_snoc(view, i as int);
                if i == 0 {
                    assert(body@ =~= sensors_json(view.take(1)));
                } else {
                    assert(body@ =~= sensors_json(view.take(i + 1)));
                }
            }
            i = i + 1;
        }
        proof {
            assert(view.take(view.len() as int) =~= view);
        }
        out.append(body.as_str());
        out.append("\n  ]\n}");
        proof {
            assert(d@.data.len() > 0);
            assert(out@ =~= payload_json(d@));
        }
        out
    }
}

} // verus!
