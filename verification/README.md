# winnipeg_data

Preprocessing of open data about Winnipeg: neighbourhood census profiles
(Excel workbooks), the street segments of the city's linear reference system
and the neighbourhood boundaries (CSV files), turned into JSON.

The crate is written in Verus.

- `src/` is the verified library. It reads a worksheet modelled as a
  rectangle of plain cells (`census::sheet`), checks the labels of each
  census table and reads its counts (`census::*`), scans the header row and
  records of the street file (`street::definition`), groups street segments
  by name and qualifier (`street`), extracts the coordinate pairs of a
  location text (`location`), builds polygons whose segments do not cross
  (`geospatial::polygon`) and reads neighbourhood records
  (`neighbourhood::boundary`). Each public function states in its contract
  what it returns; the laws that relate several functions are proof
  functions named `lemma_*`.
- `app/` is the program around it: opening workbooks with calamine, reading
  CSV files with csv, the floating-point parts (coordinates, rates,
  percentages, segment intersection), serde copies of the library's types,
  and writing the JSON files.
- `tests/` runs the library on concrete sheets, headers and records.
