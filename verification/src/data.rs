//! Collections of samples of one common length.

use vstd::prelude::*;
use crate::algebra::Vector;
use crate::scalar::Scalar;

verus! {

/// Why a data set could not be read or written.
#[derive(Debug, PartialEq, Eq)]
pub enum DataError {
    /// Two rows hold different numbers of values.
    InconsistentRows,
    /// The text is not a table of comma-separated values, or the rows cannot
    /// be written as one; with the reason in words.
    Malformed(String),
}

impl DataError {
    /// A sentence that describes the failure.
    pub fn message(&self) -> (r: String)
        ensures
            r@ == (match *self {
                DataError::InconsistentRows =>
                    "Input data set does not have consistent length rows."@,
                DataError::Malformed(reason) => reason@,
            }),
    {
        match self {
            DataError::InconsistentRows =>
                "Input data set does not have consistent length rows.".to_string(),
            DataError::Malformed(reason) => reason.clone(),
        }
    }
}

/// The error type of the `csv` crate, known by its name only.
#[verifier::external_type_specification]
#[verifier::external_body]
pub struct ExCsvError(csv::Error);

/// The records that a reader of comma-separated values finds in `bytes`,
/// each as the texts of its fields, without the first record where
/// `has_headers` is set; `None` where the reader reports an error.
pub uninterp spec fn csv_records(bytes: Seq<u8>, has_headers: bool) -> Option<Seq<Seq<Seq<char>>>>;

/// The bytes that a writer of comma-separated values makes of `rows`, one
/// record per row; `None` where the writer reports an error.
pub uninterp spec fn csv_text(rows: Seq<Seq<Seq<char>>>) -> Option<Seq<u8>>;

/// Calls `csv::ReaderBuilder::has_headers` and `from_reader` on `bytes` and
/// collects what `csv::Reader::records` yields, up to the first error. The
/// contract claims that the outcome is the one that `csv_records` names for
/// these bytes and this flag: the reader works on the bytes alone.
#[verifier::external_body]
fn read_records(bytes: &[u8], has_headers: bool) -> (r: Result<Vec<Vec<String>>, csv::Error>)
    ensures
        r is Ok <==> csv_records(bytes@, has_headers) is Some,
        r matches Ok(rows) ==> Some(rows.deep_view()) == csv_records(bytes@, has_headers),
{
    let mut reader = csv::ReaderBuilder::new().has_headers(has_headers).from_reader(bytes);
    reader.records().map(|row| row.map(|fields| fields.iter().map(String::from).collect())).collect()
}

/// Calls `csv::Writer::from_writer` on an empty buffer, `write_record` for
/// every row in order, and `into_inner` for the buffer. The contract claims
/// that the outcome is the one that `csv_text` names for the texts of the
/// rows: the writer works on them alone.
#[verifier::external_body]
fn write_records(rows: &Vec<Vec<String>>) -> (r: Result<Vec<u8>, csv::Error>)
    ensures
        r is Ok <==> csv_text(rows.deep_view()) is Some,
        r matches Ok(bytes) ==> Some(bytes@) == csv_text(rows.deep_view()),
{
    let mut writer = csv::Writer::from_writer(Vec::new());
    for row in rows {
        writer.write_record(row)?;
    }
    writer.into_inner().map_err(|error| csv::Error::from(error.into_error()))
}

/// Calls `to_string` on a `csv::Error`: the error in words. Nothing is
/// claimed of the text.
#[verifier::external_body]
fn reason_of(error: &csv::Error) -> (r: String) {
    error.to_string()
}

/// `values` is what `parse` made of `rows`, text by text.
pub open spec fn parsed<T, P: Fn(&String) -> T>(
    rows: Seq<Vec<String>>,
    parse: P,
    values: Seq<Seq<T>>,
) -> bool {
    &&& values.len() == rows.len()
    &&& forall|i: int| 0 <= i < rows.len() ==> (#[trigger] values[i]).len() == rows[i]@.len()
    &&& forall|i: int, j: int|
        0 <= i < rows.len() && 0 <= j < rows[i]@.len() ==> call_ensures(
            parse,
            (&rows[i]@[j],),
            #[trigger] values[i][j],
        )
}

/// `rows` is what `render` made of `values`, number by number.
pub open spec fn rendered<T, R: Fn(T) -> String>(
    values: Seq<Seq<T>>,
    render: R,
    rows: Seq<Vec<String>>,
) -> bool {
    &&& rows.len() == values.len()
    &&& forall|i: int| 0 <= i < values.len() ==> (#[trigger] rows[i])@.len() == values[i].len()
    &&& forall|i: int, j: int|
        0 <= i < values.len() && 0 <= j < values[i].len() ==> call_ensures(
            render,
            (values[i][j],),
            #[trigger] rows[i]@[j],
        )
}

/// Every row has the length of the first one.
pub open spec fn uniform<T>(rows: Seq<Seq<T>>) -> bool {
    forall|i: int| 0 <= i < rows.len() ==> (#[trigger] rows[i]).len() == rows[0].len()
}

/// An ordered collection of samples, all of the same length.
#[derive(Debug)]
pub struct DataSet<T> {
    samples: Vec<Vector<T>>,
}

impl<T> View for DataSet<T> {
    type V = Seq<Seq<T>>;

    closed spec fn view(&self) -> Seq<Seq<T>> {
        Seq::new(self.samples@.len(), |i: int| self.samples@[i]@)
    }
}

impl<T: Scalar> Clone for DataSet<T> {
    fn clone(&self) -> (r: Self)
        ensures
            r@ == self@,
    {
        let mut samples: Vec<Vector<T>> = Vec::with_capacity(self.samples.len());
        let mut i: usize = 0;
        while i < self.samples.len()
            invariant
                i <= self.samples.len(),
                samples.len() == i,
                forall|k: int| 0 <= k < i ==> (#[trigger] samples@[k])@ == self.samples@[k]@,
            decreases self.samples.len() - i,
        {
            samples.push(self.samples[i].clone());
            i += 1;
        }
        let copy = DataSet { samples };
        assert(copy@ =~= self@);
        copy
    }
}

impl<T: Scalar> DataSet<T> {
    /// All samples have the same length.
    pub open spec fn wf(&self) -> bool {
        uniform(self@)
    }

    /// The common length of the samples; zero for the empty set.
    pub open spec fn width(&self) -> nat {
        if self@.len() == 0 {
            0
        } else {
            self@[0].len()
        }
    }

    /// The data set of the given samples, in their order.
    pub fn new(samples: Vec<Vector<T>>) -> (r: Result<DataSet<T>, DataError>)
        ensures
            uniform(Seq::new(samples@.len(), |i: int| samples@[i]@)) <==> r is Ok,
            r is Err ==> r == Err::<DataSet<T>, DataError>(DataError::InconsistentRows),
            r matches Ok(set) ==> set.wf() && set@ == Seq::new(samples@.len(), |i: int| samples@[i]@),
    {
        let ghost rows = Seq::new(samples@.len(), |i: int| samples@[i]@);
        let mut i: usize = 1;
        while i < samples.len()
            invariant
                1 <= i,
                rows == Seq::new(samples@.len(), |i: int| samples@[i]@),
                forall|k: int| 0 <= k < i && k < rows.len() ==> (#[trigger] rows[k]).len() == rows[0].len(),
            decreases samples.len() - i,
        {
            if samples[i].len() != samples[0].len() {
                assert(rows[i as int].len() != rows[0].len());
                return Err(DataError::InconsistentRows);
            }
            i += 1;
        }
        Ok(DataSet { samples })
    }

    /// The data set whose samples are the given rows, in their order.
    pub fn from_rows(rows: Vec<Vec<T>>) -> (r: Result<DataSet<T>, DataError>)
        ensures
            uniform(Seq::new(rows@.len(), |i: int| rows@[i]@)) <==> r is Ok,
            r is Err ==> r == Err::<DataSet<T>, DataError>(DataError::InconsistentRows),
            r matches Ok(set) ==> set.wf() && set@ == Seq::new(rows@.len(), |i: int| rows@[i]@),
    {
        let mut samples: Vec<Vector<T>> = Vec::with_capacity(rows.len());
        let mut i: usize = 0;
        while i < rows.len()
            invariant
                i <= rows.len(),
                samples.len() == i,
                forall|k: int| 0 <= k < i ==> (#[trigger] samples@[k])@ == rows@[k]@,
            decreases rows.len() - i,
        {
            samples.push(Vector::new(crate::algebra::copy_of(&rows[i])));
            i += 1;
        }
        assert(Seq::new(samples@.len(), |i: int| samples@[i]@) =~= Seq::new(
            rows@.len(),
            |i: int| rows@[i]@,
        ));
        DataSet::new(samples)
    }

    /// The number of samples.
    pub fn quantity(&self) -> (r: usize)
        ensures
            r == self@.len(),
    {
        self.samples.len()
    }

    /// The number of values in each sample; zero for the empty set.
    pub fn entries_per_set(&self) -> (r: usize)
        ensures
            r == self.width(),
    {
        if self.samples.len() == 0 {
            0
        } else {
            self.samples[0].len()
        }
    }

    /// The values of the sample at `index`.
    pub fn get(&self, index: usize) -> (r: &Vec<T>)
        requires
            index < self@.len(),
        ensures
            r@ == self@[index as int],
    {
        self.samples[index].as_vec()
    }

    /// The sample at `index`.
    pub fn internal_get(&self, index: usize) -> (r: &Vector<T>)
        requires
            index < self@.len(),
        ensures
            r@ == self@[index as int],
    {
        &self.samples[index]
    }
}

impl<T: Scalar> DataSet<T> {
    /// The data set whose samples are the rows of `rows`, with every text
    /// turned into a number by `parse`. The texts are parsed row by row, and
    /// reading stops at the first row whose length differs from that of the
    /// first.
    pub fn from_records<P: Fn(&String) -> T>(
        rows: &Vec<Vec<String>>,
        parse: P,
    ) -> (r: Result<DataSet<T>, DataError>)
        requires
            forall|text: &String| call_requires(parse, (text,)),
        ensures
            uniform(rows.deep_view()) <==> r is Ok,
            r is Err ==> r == Err::<DataSet<T>, DataError>(DataError::InconsistentRows),
            r matches Ok(set) ==> set.wf() && parsed(rows@, parse, set@),
    {
        let mut data: Vec<Vector<T>> = Vec::new();
        let mut i: usize = 0;
        while i < rows.len()
            invariant
                i <= rows@.len(),
                data.len() == i,
                forall|text: &String| call_requires(parse, (text,)),
                forall|k: int| 0 <= k < i ==> (#[trigger] rows@[k])@.len() == rows@[0]@.len(),
                forall|k: int| 0 <= k < i ==> (#[trigger] data@[k])@.len() == rows@[k]@.len(),
                forall|k: int, j: int|
                    0 <= k < i && 0 <= j < rows@[k]@.len() ==> call_ensures(
                        parse,
                        (&rows@[k]@[j],),
                        #[trigger] data@[k]@[j],
                    ),
            decreases rows@.len() - i,
        {
            let record = &rows[i];
            let mut row: Vec<T> = Vec::new();
            let mut j: usize = 0;
            while j < record.len()
                invariant
                    j <= record@.len(),
                    row.len() == j,
                    forall|text: &String| call_requires(parse, (text,)),
                    forall|m: int|
                        0 <= m < j ==> call_ensures(parse, (&record@[m],), #[trigger] row@[m]),
                decreases record@.len() - j,
            {
                row.push(parse(&record[j]));
                j += 1;
            }
            if row.len() != rows[0].len() {
                proof {
                    let lengths = rows.deep_view();
                    assert(lengths[i as int].len() == rows@[i as int]@.len());
                    assert(lengths[0].len() == rows@[0]@.len());
                }
                return Err(DataError::InconsistentRows);
            }
            data.push(Vector::new(row));
            i += 1;
        }
        proof {
            let lengths = rows.deep_view();
            assert forall|k: int| 0 <= k < lengths.len() implies (#[trigger] lengths[k]).len()
                == lengths[0].len() by {
                assert(lengths[k].len() == rows@[k]@.len());
                assert(lengths[0].len() == rows@[0]@.len());
            }
            let samples = Seq::new(data@.len(), |k: int| data@[k]@);
            assert forall|k: int| 0 <= k < samples.len() implies (#[trigger] samples[k]).len()
                == samples[0].len() by {}
        }
        let set = DataSet::new(data).unwrap();
        Ok(set)
    }

    /// Reads a data set from comma-separated values: every record is a
    /// sample, every field a number, which `parse` makes of its text. With
    /// `has_headers` the first record is left out.
    pub fn from_csv<P: Fn(&String) -> T>(
        bytes: &[u8],
        has_headers: bool,
        parse: P,
    ) -> (r: Result<DataSet<T>, DataError>)
        requires
            forall|text: &String| call_requires(parse, (text,)),
        ensures
            csv_records(bytes@, has_headers) is None <==> r matches Err(DataError::Malformed(_)),
            csv_records(bytes@, has_headers) matches Some(found) && !uniform(found) <==> r == Err::<
                DataSet<T>,
                DataError,
            >(DataError::InconsistentRows),
            csv_records(bytes@, has_headers) matches Some(found) && uniform(found) <==> r is Ok,
            r matches Ok(set) ==> set.wf() && exists|rows: Vec<Vec<String>>|
                Some(#[trigger] rows.deep_view()) == csv_records(bytes@, has_headers) && parsed(
                    rows@,
                    parse,
                    set@,
                ),
    {
        match read_records(bytes, has_headers) {
            Ok(rows) => DataSet::from_records(&rows, parse),
            Err(error) => Err(DataError::Malformed(reason_of(&error))),
        }
    }

    /// The samples as rows of texts, every number turned into its text by
    /// `render`.
    pub fn render_rows<R: Fn(T) -> String>(&self, render: R) -> (r: Vec<Vec<String>>)
        requires
            forall|value: T| call_requires(render, (value,)),
        ensures
            rendered(self@, render, r@),
    {
        let mut rows: Vec<Vec<String>> = Vec::with_capacity(self.samples.len());
        let mut i: usize = 0;
        while i < self.samples.len()
            invariant
                i <= self.samples@.len(),
                rows.len() == i,
                forall|value: T| call_requires(render, (value,)),
                forall|k: int| 0 <= k < i ==> (#[trigger] rows@[k])@.len() == self@[k].len(),
                forall|k: int, j: int|
                    0 <= k < i && 0 <= j < self@[k].len() ==> call_ensures(
                        render,
                        (self@[k][j],),
                        #[trigger] rows@[k]@[j],
                    ),
            decreases self.samples@.len() - i,
        {
            let set = &self.samples[i];
            assert(set@ == self@[i as int]);
            let mut string_array: Vec<String> = Vec::with_capacity(set.len());
            let mut j: usize = 0;
            while j < set.len()
                invariant
                    j <= set@.len(),
                    string_array.len() == j,
                    forall|value: T| call_requires(render, (value,)),
                    forall|m: int|
                        0 <= m < j ==> call_ensures(render, (set@[m],), #[trigger] string_array@[m]),
                decreases set@.len() - j,
            {
                string_array.push(render(set.index(j)));
                j += 1;
            }
            rows.push(string_array);
            i += 1;
        }
        rows
    }

    /// The data set as comma-separated values: one record per sample, one
    /// field per number, with the text that `render` gives it.
    pub fn save<R: Fn(T) -> String>(&self, render: R) -> (r: Result<Vec<u8>, DataError>)
        requires
            forall|value: T| call_requires(render, (value,)),
        ensures
            exists|rows: Vec<Vec<String>>|
                {
                    &&& rendered(self@, render, rows@)
                    &&& r is Ok <==> csv_text(#[trigger] rows.deep_view()) is Some
                    &&& r matches Ok(bytes) ==> Some(bytes@) == csv_text(rows.deep_view())
                },
            r is Err ==> r matches Err(DataError::Malformed(_)),
    {
        let rows = self.render_rows(render);
        match write_records(&rows) {
            Ok(bytes) => Ok(bytes),
            Err(error) => Err(DataError::Malformed(reason_of(&error))),
        }
    }
}

/// What `exceeds` answers for `a` and `b`.
pub open spec fn answer<T, G: Fn(T, T) -> bool>(exceeds: G, a: T, b: T) -> bool {
    choose|r: bool| call_ensures(exceeds, (a, b), r)
}

/// `exceeds` accepts every pair, and what it answers is a function of the
/// pair.
pub open spec fn is_relation<T, G: Fn(T, T) -> bool>(exceeds: G) -> bool {
    &&& forall|a: T, b: T| call_requires(exceeds, (a, b))
    &&& forall|a: T, b: T, r: bool| call_ensures(exceeds, (a, b), r) ==> r == answer(exceeds, a, b)
}

/// The place of the largest of the first `n` values: going through them in
/// order, the place held so far is kept where its value exceeds the next one,
/// and given up for the place of the next one where it does not.
pub open spec fn leader<T, G: Fn(T, T) -> bool>(values: Seq<T>, exceeds: G, n: nat) -> int
    decreases n,
{
    if n <= 1 {
        0
    } else {
        let held = leader(values, exceeds, (n - 1) as nat);
        if answer(exceeds, values[held], values[n - 1]) {
            held
        } else {
            n - 1
        }
    }
}

/// The place of the largest value of `vector`, by `exceeds`; of several
/// values of which none exceeds another, the last.
pub fn max_index<T: Copy, G: Fn(T, T) -> bool>(vector: &Vec<T>, exceeds: G) -> (r: usize)
    requires
        vector@.len() > 0,
        is_relation(exceeds),
    ensures
        r == leader(vector@, exceeds, vector@.len()),
        r < vector@.len(),
{
    let mut held: usize = 0;
    let mut i: usize = 1;
    while i < vector.len()
        invariant
            is_relation(exceeds),
            1 <= i <= vector@.len(),
            held == leader(vector@, exceeds, i as nat),
            held < i,
        decreases vector@.len() - i,
    {
        if !exceeds(vector[held], vector[i]) {
            held = i;
        }
        i += 1;
    }
    held
}

} // verus!
